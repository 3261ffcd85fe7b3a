//! The store behind the memory: the vector index, the episodic records that
//! the index points to, and the facts.

use vstd::prelude::*;
use vstd::string::StringExecFns;
use crate::decimal::{decimal, decimal_string, lemma_decimal_injective};
use crate::memory::enhanced::facts::{
    lemma_used_wf,
    lemma_with_fact_wf,
    lemma_without_key,
    used,
    with_fact,
    with_facts,
    without_key,
    Facts,
};
use crate::memory::enhanced::vector_store::{
    added,
    added_all,
    holds,
    index_of,
    lemma_index_of,
    picked,
    top_ranked,
    unique_ids,
    MemoryVector,
    MemoryVectorView,
    VectorStore,
};
use crate::memory::error::Error;
use crate::pairs::{as_map, find_key, has_key, unique_keys, value_of};
use crate::ranking::ranking;
use crate::text::{clone_strings, contains_string, str_eq};

verus! {

/// An episodic record: one past execution, with what is known of its use.
#[derive(Debug)]
pub struct EnhancedMemoryEntry {
    /// Identifier of the record.
    pub id: String,
    /// The task description.
    pub task: String,
    /// The code that was run.
    pub code: String,
    /// What the run gave.
    pub result: String,
    /// When the record was made, in seconds.
    pub timestamp: u64,
    /// Tags of the record.
    pub tags: Vec<String>,
    /// Importance, from 0 to 100.
    pub importance: u8,
    /// How often the record was retrieved.
    pub access_count: u32,
    /// When the record was last retrieved, in seconds.
    pub last_access: u64,
}

/// What an [`EnhancedMemoryEntry`] holds.
pub struct EnhancedMemoryEntryView {
    pub id: Seq<char>,
    pub task: Seq<char>,
    pub code: Seq<char>,
    pub result: Seq<char>,
    pub timestamp: u64,
    pub tags: Seq<Seq<char>>,
    pub importance: u8,
    pub access_count: u32,
    pub last_access: u64,
}

impl View for EnhancedMemoryEntry {
    type V = EnhancedMemoryEntryView;

    open spec fn view(&self) -> EnhancedMemoryEntryView {
        EnhancedMemoryEntryView {
            id: self.id@,
            task: self.task@,
            code: self.code@,
            result: self.result@,
            timestamp: self.timestamp,
            tags: self.tags.deep_view(),
            importance: self.importance,
            access_count: self.access_count,
            last_access: self.last_access,
        }
    }
}

impl DeepView for EnhancedMemoryEntry {
    type V = EnhancedMemoryEntryView;

    open spec fn deep_view(&self) -> EnhancedMemoryEntryView {
        self@
    }
}

impl Clone for EnhancedMemoryEntry {
    fn clone(&self) -> (r: Self)
        ensures
            r@ == self@,
    {
        EnhancedMemoryEntry {
            id: self.id.clone(),
            task: self.task.clone(),
            code: self.code.clone(),
            result: self.result.clone(),
            timestamp: self.timestamp,
            tags: clone_strings(&self.tags),
            importance: self.importance,
            access_count: self.access_count,
            last_access: self.last_access,
        }
    }
}

/// The records as they are stored.
pub type Records = Seq<EnhancedMemoryEntryView>;

/// No two records share an identifier.
pub open spec fn unique_records(records: Records) -> bool {
    forall|i: int, j: int| 0 <= i < j < records.len() ==> records[i].id != records[j].id
}

/// A record with the identifier `id` is stored.
pub open spec fn has_record(records: Records, id: Seq<char>) -> bool {
    exists|i: int| 0 <= i < records.len() && records[i].id == id
}

/// The position of the record with the identifier `id`.
pub open spec fn record_index(records: Records, id: Seq<char>) -> int {
    choose|i: int| 0 <= i < records.len() && records[i].id == id
}

/// The records after `e` was stored: in place of the record of the same
/// identifier, or behind all others.
pub open spec fn with_record(records: Records, e: EnhancedMemoryEntryView) -> Records {
    if has_record(records, e.id) {
        records.update(record_index(records, e.id), e)
    } else {
        records.push(e)
    }
}

/// The records after the records `es` were stored one after the other.
pub open spec fn with_records(records: Records, es: Records) -> Records
    decreases es.len(),
{
    if es.len() == 0 {
        records
    } else {
        with_record(with_records(records, es.drop_last()), es.last())
    }
}

/// A record after it was retrieved at `now`: counted once more, unless the
/// count is at its greatest, and last used at `now`.
pub open spec fn touched(e: EnhancedMemoryEntryView, now: u64) -> EnhancedMemoryEntryView {
    EnhancedMemoryEntryView {
        access_count: if e.access_count < u32::MAX {
            (e.access_count + 1) as u32
        } else {
            u32::MAX
        },
        last_access: now,
        ..e
    }
}

/// Every tag of `wanted` is among `have`.
pub open spec fn has_all_tags(have: Seq<Seq<char>>, wanted: Seq<Seq<char>>) -> bool {
    forall|i: int| 0 <= i < wanted.len() ==> have.contains(#[trigger] wanted[i])
}

/// What looking up the identifiers `ids`, one after the other, leaves and
/// gives: first the records afterwards, then the records that were
/// retrieved. An identifier retrieves its record if the record is stored and
/// has all of `tags`, as long as fewer than `limit` records were retrieved;
/// the record is touched as it is retrieved. An identifier without a record
/// is passed over.
pub open spec fn visited(
    records: Records,
    ids: Seq<Seq<char>>,
    tags: Seq<Seq<char>>,
    limit: nat,
    now: u64,
) -> (Records, Records)
    decreases ids.len(),
{
    if ids.len() == 0 {
        (records, Seq::empty())
    } else {
        let before = visited(records, ids.drop_last(), tags, limit, now);
        let id = ids.last();
        if before.1.len() < limit && has_record(before.0, id) && has_all_tags(
            before.0[record_index(before.0, id)].tags,
            tags,
        ) {
            let e = touched(before.0[record_index(before.0, id)], now);
            (before.0.update(record_index(before.0, id), e), before.1.push(e))
        } else {
            before
        }
    }
}

/// What looking up `ids` without a condition on tags and without a limit
/// leaves and gives.
pub open spec fn retrieval(records: Records, ids: Seq<Seq<char>>, now: u64) -> (Records, Records) {
    visited(records, ids, Seq::empty(), ids.len(), now)
}

/// The identifiers of the entries `vs`.
pub open spec fn ids_of(vs: Seq<MemoryVectorView>) -> Seq<Seq<char>> {
    Seq::new(vs.len(), |i: int| vs[i].id)
}

/// The identifiers of the entries most similar to a query, by `scores`, at
/// most `limit` of them.
pub open spec fn relevant_ids(vectors: Seq<MemoryVectorView>, scores: Seq<i64>, limit: nat) -> Seq<
    Seq<char>,
> {
    ids_of(picked(vectors, top_ranked(scores, vectors.len(), limit)))
}

/// The identifier made from a time in nanoseconds.
pub open spec fn record_id(nanos: u128) -> Seq<char> {
    "mem_"@ + decimal(nanos as nat)
}

/// The reading that comes `k` steps after `nanos`; after the greatest
/// reading comes zero.
pub open spec fn reading_after(nanos: u128, k: nat) -> u128 {
    if nanos + k <= u128::MAX {
        (nanos + k) as u128
    } else {
        (nanos + k - u128::MAX - 1) as u128
    }
}

/// Neither a record nor an index entry has the identifier of the reading
/// `n`.
pub open spec fn is_free(records: Records, vectors: Seq<MemoryVectorView>, n: u128) -> bool {
    !has_record(records, record_id(n)) && !holds(vectors, record_id(n))
}

/// The reading `k` steps after `nanos` is free, and none before it is.
pub open spec fn is_first_free(
    records: Records,
    vectors: Seq<MemoryVectorView>,
    nanos: u128,
    k: nat,
) -> bool {
    &&& is_free(records, vectors, reading_after(nanos, k))
    &&& forall|j: nat| j < k ==> !is_free(records, vectors, #[trigger] reading_after(nanos, j))
}

/// How many steps after `nanos` the first free reading comes.
pub open spec fn first_free_offset(
    records: Records,
    vectors: Seq<MemoryVectorView>,
    nanos: u128,
) -> nat {
    choose|k: nat| is_first_free(records, vectors, nanos, k)
}

/// The reading from which a new identifier is made: `nanos` itself where its
/// identifier is free, else the first reading after it whose identifier is.
pub open spec fn fresh_reading(
    records: Records,
    vectors: Seq<MemoryVectorView>,
    nanos: u128,
) -> u128 {
    reading_after(nanos, first_free_offset(records, vectors, nanos))
}

/// The identifier that position `p` holds, the records counted first and the
/// index entries after them.
pub open spec fn id_at(records: Records, vectors: Seq<MemoryVectorView>, p: int) -> Seq<char> {
    if p < records.len() {
        records[p].id
    } else {
        vectors[p - records.len()].id
    }
}

/// Two readings with the same identifier are the same reading.
pub proof fn lemma_record_id_injective(a: u128, b: u128)
    requires
        record_id(a) == record_id(b),
    ensures
        a == b,
{
    let prefix = "mem_"@;
    assert(decimal(a as nat) =~= record_id(a).subrange(
        prefix.len() as int,
        record_id(a).len() as int,
    ));
    assert(decimal(b as nat) =~= record_id(b).subrange(
        prefix.len() as int,
        record_id(b).len() as int,
    ));
    lemma_decimal_injective(a as nat, b as nat);
}

/// The search for a free reading, `k` steps in: every position in the domain
/// of `seen` holds the identifier of an earlier step, a different one each.
proof fn lemma_search(
    records: Records,
    vectors: Seq<MemoryVectorView>,
    nanos: u128,
    k: nat,
    seen: Map<int, nat>,
)
    requires
        records.len() + vectors.len() <= u128::MAX,
        k <= records.len() + vectors.len(),
        forall|j: nat| j < k ==> !is_free(records, vectors, #[trigger] reading_after(nanos, j)),
        seen.dom().finite(),
        seen.dom().len() == k,
        forall|p: int| #[trigger]
            seen.dom().contains(p) ==> 0 <= p < records.len() + vectors.len() && seen[p] < k
                && id_at(records, vectors, p) == record_id(reading_after(nanos, seen[p])),
    ensures
        exists|found: nat|
            found <= records.len() + vectors.len() && is_first_free(
                records,
                vectors,
                nanos,
                found,
            ),
    decreases records.len() + vectors.len() - k,
{
    let total = records.len() + vectors.len();
    let n = reading_after(nanos, k);
    if is_free(records, vectors, n) {
        assert(is_first_free(records, vectors, nanos, k));
    } else {
        let p: int = if has_record(records, record_id(n)) {
            record_index(records, record_id(n))
        } else {
            records.len() + index_of(vectors, record_id(n))
        };
        assert(0 <= p < total && id_at(records, vectors, p) == record_id(n));
        if seen.dom().contains(p) {
            lemma_record_id_injective(n, reading_after(nanos, seen[p]));
            assert(false);
        }
        let next = seen.insert(p, k);
        assert(next.dom() =~= seen.dom().insert(p));
        vstd::set_lib::lemma_int_range(0, total as int);
        assert(next.dom().subset_of(vstd::set_lib::set_int_range(0, total as int)));
        vstd::set_lib::lemma_len_subset(next.dom(), vstd::set_lib::set_int_range(0, total as int));
        assert forall|j: nat| j < k + 1 implies !is_free(
            records,
            vectors,
            #[trigger] reading_after(nanos, j),
        ) by {
            if j == k {
            }
        }
        lemma_search(records, vectors, nanos, k + 1, next);
    }
}

/// A store always has a free reading within as many steps as it holds
/// identifiers, and `fresh_reading` is the first of them.
pub proof fn lemma_fresh_reading(records: Records, vectors: Seq<MemoryVectorView>, nanos: u128)
    requires
        records.len() + vectors.len() <= u128::MAX,
    ensures
        is_first_free(records, vectors, nanos, first_free_offset(records, vectors, nanos)),
        first_free_offset(records, vectors, nanos) <= records.len() + vectors.len(),
        is_free(records, vectors, fresh_reading(records, vectors, nanos)),
        is_free(records, vectors, nanos) ==> fresh_reading(records, vectors, nanos) == nanos,
{
    lemma_search(records, vectors, nanos, 0, Map::empty());
    let found = choose|found: nat|
        found <= records.len() + vectors.len() && is_first_free(records, vectors, nanos, found);
    let first = first_free_offset(records, vectors, nanos);
    assert(is_first_free(records, vectors, nanos, first));
    if first < found {
        assert(!is_free(records, vectors, reading_after(nanos, first)));
    } else if found < first {
        assert(!is_free(records, vectors, reading_after(nanos, found)));
    }
    if is_free(records, vectors, nanos) {
        assert(reading_after(nanos, 0) == nanos);
        if first > 0 {
            assert(!is_free(records, vectors, reading_after(nanos, 0)));
        }
    }
}

/// The record of an execution.
pub open spec fn record_for(
    task: Seq<char>,
    code: Seq<char>,
    result: Seq<char>,
    tags: Seq<Seq<char>>,
    importance: u8,
    nanos: u128,
    now: u64,
) -> EnhancedMemoryEntryView {
    EnhancedMemoryEntryView {
        id: record_id(nanos),
        task,
        code,
        result,
        timestamp: now,
        tags,
        importance,
        access_count: 0,
        last_access: now,
    }
}

/// The index entry of an execution: its text is the task and the result,
/// with a space between.
pub open spec fn vector_for(
    task: Seq<char>,
    result: Seq<char>,
    embedding: Seq<u32>,
    nanos: u128,
    now: u64,
) -> MemoryVectorView {
    MemoryVectorView {
        id: record_id(nanos),
        vector: embedding,
        content: task + " "@ + result,
        metadata: Map::empty().insert("task"@, task).insert("timestamp"@, decimal(now as nat)),
        timestamp: now,
    }
}

/// The records after an execution was stored at the reading `nanos`: the
/// old ones, then the new record under a fresh identifier.
pub open spec fn records_with_execution(
    records: Records,
    vectors: Seq<MemoryVectorView>,
    task: Seq<char>,
    code: Seq<char>,
    result: Seq<char>,
    tags: Seq<Seq<char>>,
    importance: u8,
    nanos: u128,
    now: u64,
) -> Records {
    records.push(
        record_for(
            task,
            code,
            result,
            tags,
            importance,
            fresh_reading(records, vectors, nanos),
            now,
        ),
    )
}

/// The index after an execution was stored at the reading `nanos`: the new
/// entry, under the same fresh identifier, added to the old index.
pub open spec fn vectors_with_execution(
    records: Records,
    vectors: Seq<MemoryVectorView>,
    cap: nat,
    task: Seq<char>,
    result: Seq<char>,
    embedding: Seq<u32>,
    nanos: u128,
    now: u64,
) -> Seq<MemoryVectorView> {
    added(
        vectors,
        vector_for(task, result, embedding, fresh_reading(records, vectors, nanos), now),
        cap,
    )
}

/// Among records of unique identifiers, the record of an identifier stands
/// where `record_index` says.
pub proof fn lemma_record_index(records: Records, id: Seq<char>, i: int)
    requires
        unique_records(records),
        0 <= i < records.len(),
        records[i].id == id,
    ensures
        has_record(records, id),
        record_index(records, id) == i,
{
    let c = record_index(records, id);
    assert(0 <= c < records.len() && records[c].id == id);
    if c < i {
        assert(records[c].id != records[i].id);
    } else if i < c {
        assert(records[i].id != records[c].id);
    }
}

/// Storing a record keeps identifiers unique, and the record is then stored
/// as given.
pub proof fn lemma_with_record(records: Records, e: EnhancedMemoryEntryView)
    requires
        unique_records(records),
    ensures
        unique_records(with_record(records, e)),
        has_record(with_record(records, e), e.id),
        with_record(records, e)[record_index(with_record(records, e), e.id)] == e,
{
    let next = with_record(records, e);
    if has_record(records, e.id) {
        let i = record_index(records, e.id);
        assert forall|a: int, b: int| 0 <= a < b < next.len() implies next[a].id != next[b].id by {
            assert(next[a].id == records[a].id && next[b].id == records[b].id);
        }
        assert(next[i] == e);
        lemma_record_index(next, e.id, i);
    } else {
        assert forall|a: int, b: int| 0 <= a < b < next.len() implies next[a].id != next[b].id by {
            if b < records.len() {
            } else {
                assert(next[a] == records[a]);
            }
        }
        assert(next[next.len() - 1] == e);
        lemma_record_index(next, e.id, next.len() - 1);
    }
}

/// Looking records up keeps their identifiers, hence keeps them unique, and
/// retrieves no more than `limit`.
pub proof fn lemma_visited(
    records: Records,
    ids: Seq<Seq<char>>,
    tags: Seq<Seq<char>>,
    limit: nat,
    now: u64,
)
    requires
        unique_records(records),
    ensures
        unique_records(visited(records, ids, tags, limit, now).0),
        visited(records, ids, tags, limit, now).0.len() == records.len(),
        forall|i: int|
            0 <= i < records.len() ==> (#[trigger] visited(records, ids, tags, limit, now).0[i]).id
                == records[i].id,
        visited(records, ids, tags, limit, now).1.len() <= limit,
        visited(records, ids, tags, limit, now).1.len() <= ids.len(),
    decreases ids.len(),
{
    if ids.len() > 0 {
        lemma_visited(records, ids.drop_last(), tags, limit, now);
    }
}

/// An execution that was stored is retrieved again, counted once: where the
/// index has room for one entry at least and the scores rank the new entry
/// first, a retrieval of one record gives the record with the task, the code
/// and the result that were stored.
pub proof fn lemma_store_then_retrieve(
    vectors: Seq<MemoryVectorView>,
    records: Records,
    cap: nat,
    entry: EnhancedMemoryEntryView,
    vector: MemoryVectorView,
    scores: Seq<i64>,
    later: u64,
)
    requires
        unique_ids(vectors),
        unique_records(records),
        vectors.len() <= cap,
        cap > 0,
        cap <= usize::MAX,
        vector.id == entry.id,
        entry.access_count == 0,
        ranking(scores, added(vectors, vector, cap).len())[0] == index_of(
            added(vectors, vector, cap),
            entry.id,
        ),
    ensures
        retrieval(
            with_record(records, entry),
            relevant_ids(added(vectors, vector, cap), scores, 1),
            later,
        ).1 == seq![touched(entry, later)],
        touched(entry, later).task == entry.task,
        touched(entry, later).code == entry.code,
        touched(entry, later).result == entry.result,
        touched(entry, later).access_count == 1,
{
    let v2 = added(vectors, vector, cap);
    let r2 = with_record(records, entry);
    crate::memory::enhanced::vector_store::lemma_added_wf(vectors, vector, cap);
    lemma_with_record(records, entry);
    assert(holds(v2, entry.id) && v2[index_of(v2, entry.id)].id == entry.id) by {
        if holds(vectors, vector.id) {
            let i = index_of(vectors, vector.id);
            assert(v2[i].id == entry.id);
            lemma_index_of(v2, entry.id, i);
        } else {
            assert(v2[v2.len() - 1] == vector);
            lemma_index_of(v2, entry.id, v2.len() - 1);
        }
    }
    crate::ranking::lemma_ranking(scores, v2.len());
    let top = top_ranked(scores, v2.len(), 1);
    assert(top.len() == 1);
    assert(top[0] == ranking(scores, v2.len())[0]);
    let ids = relevant_ids(v2, scores, 1);
    assert(ids =~= seq![entry.id]);
    assert(ids.drop_last() =~= Seq::<Seq<char>>::empty());
    let start = visited(r2, ids.drop_last(), Seq::empty(), 1, later);
    assert(start == (r2, Seq::<EnhancedMemoryEntryView>::empty()));
    assert(has_all_tags(r2[record_index(r2, entry.id)].tags, Seq::empty()));
    assert(retrieval(r2, ids, later).1 =~= seq![touched(entry, later)]);
}

/// An execution that was stored is retrieved again, counted once, whatever
/// the store held and whatever reading the clock gave: where the index has
/// room for one entry at least and the scores rank the new entry first, a
/// retrieval of one record gives the record with the task, the code and the
/// result that were stored.
pub proof fn lemma_execution_round_trip(
    records: Records,
    vectors: Seq<MemoryVectorView>,
    cap: nat,
    task: Seq<char>,
    code: Seq<char>,
    result: Seq<char>,
    tags: Seq<Seq<char>>,
    importance: u8,
    embedding: Seq<u32>,
    nanos: u128,
    now: u64,
    scores: Seq<i64>,
    later: u64,
)
    requires
        unique_ids(vectors),
        unique_records(records),
        vectors.len() <= cap,
        cap > 0,
        cap <= usize::MAX,
        records.len() <= usize::MAX,
        ranking(
            scores,
            vectors_with_execution(records, vectors, cap, task, result, embedding, nanos, now).len(),
        )[0] == index_of(
            vectors_with_execution(records, vectors, cap, task, result, embedding, nanos, now),
            record_id(fresh_reading(records, vectors, nanos)),
        ),
    ensures
        ({
            let got = retrieval(
                records_with_execution(
                    records,
                    vectors,
                    task,
                    code,
                    result,
                    tags,
                    importance,
                    nanos,
                    now,
                ),
                relevant_ids(
                    vectors_with_execution(
                        records,
                        vectors,
                        cap,
                        task,
                        result,
                        embedding,
                        nanos,
                        now,
                    ),
                    scores,
                    1,
                ),
                later,
            ).1;
            &&& got.len() == 1
            &&& got[0].task == task
            &&& got[0].code == code
            &&& got[0].result == result
            &&& got[0].access_count == 1
        }),
{
    lemma_fresh_reading(records, vectors, nanos);
    let reading = fresh_reading(records, vectors, nanos);
    let entry = record_for(task, code, result, tags, importance, reading, now);
    let vector = vector_for(task, result, embedding, reading, now);
    assert(with_record(records, entry) == records.push(entry));
    lemma_store_then_retrieve(vectors, records, cap, entry, vector, scores, later);
}

/// Whether every tag of `wanted` is among `have`.
pub fn holds_all_tags(have: &Vec<String>, wanted: &Vec<String>) -> (b: bool)
    ensures
        b == has_all_tags(have.deep_view(), wanted.deep_view()),
{
    let mut i: usize = 0;
    while i < wanted.len()
        invariant
            i <= wanted.len(),
            forall|j: int| 0 <= j < i ==> have.deep_view().contains(#[trigger] wanted.deep_view()[j]),
        decreases wanted.len() - i,
    {
        assert(wanted.deep_view()[i as int] == wanted[i as int]@);
        if !contains_string(have, wanted[i].as_str()) {
            return false;
        }
        i += 1;
    }
    true
}

fn find_record(records: &Vec<EnhancedMemoryEntry>, id: &str) -> (r: Option<usize>)
    requires
        unique_records(records.deep_view()),
    ensures
        r is Some == has_record(records.deep_view(), id@),
        r matches Some(i) ==> i < records.len() && i == record_index(records.deep_view(), id@)
            && records[i as int].id@ == id@,
{
    let mut i: usize = 0;
    while i < records.len()
        invariant
            i <= records.len(),
            unique_records(records.deep_view()),
            forall|j: int| 0 <= j < i ==> records.deep_view()[j].id != id@,
        decreases records.len() - i,
    {
        assert(records.deep_view()[i as int] == records[i as int]@);
        if str_eq(records[i].id.as_str(), id) {
            proof {
                lemma_record_index(records.deep_view(), id@, i as int);
            }
            return Some(i);
        }
        i += 1;
    }
    None
}

fn put_record(records: &mut Vec<EnhancedMemoryEntry>, e: EnhancedMemoryEntry)
    requires
        unique_records(old(records).deep_view()),
    ensures
        unique_records(final(records).deep_view()),
        final(records).deep_view() == with_record(old(records).deep_view(), e@),
{
    let ghost before = records.deep_view();
    let ghost ev = e@;
    proof {
        lemma_with_record(before, ev);
    }
    match find_record(records, e.id.as_str()) {
        Some(i) => {
            records.set(i, e);
            assert(records.deep_view() =~= before.update(i as int, ev));
        },
        None => {
            records.push(e);
            assert(records.deep_view() =~= before.push(ev));
        },
    }
}

fn visit(
    records: &mut Vec<EnhancedMemoryEntry>,
    ids: &Vec<String>,
    tags: &Vec<String>,
    limit: usize,
    now: u64,
) -> (out: Vec<EnhancedMemoryEntry>)
    requires
        unique_records(old(records).deep_view()),
    ensures
        unique_records(final(records).deep_view()),
        (final(records).deep_view(), out.deep_view()) == visited(
            old(records).deep_view(),
            ids.deep_view(),
            tags.deep_view(),
            limit as nat,
            now,
        ),
{
    let ghost start = records.deep_view();
    let mut out: Vec<EnhancedMemoryEntry> = Vec::new();
    let mut i: usize = 0;
    assert(ids.deep_view().take(0) =~= Seq::<Seq<char>>::empty());
    assert(out.deep_view() =~= Seq::<EnhancedMemoryEntryView>::empty());
    while i < ids.len()
        invariant
            i <= ids.len(),
            unique_records(records.deep_view()),
            (records.deep_view(), out.deep_view()) == visited(
                start,
                ids.deep_view().take(i as int),
                tags.deep_view(),
                limit as nat,
                now,
            ),
        decreases ids.len() - i,
    {
        let ghost rs = records.deep_view();
        let ghost got = out.deep_view();
        proof {
            let next = ids.deep_view().take(i + 1);
            assert(next.drop_last() =~= ids.deep_view().take(i as int));
            assert(next.last() == ids[i as int]@);
        }
        if out.len() < limit {
            match find_record(records, ids[i].as_str()) {
                Some(at) => {
                    assert(rs[at as int] == records[at as int]@);
                    if holds_all_tags(&records[at].tags, tags) {
                        let mut e = records[at].clone();
                        e.access_count = if e.access_count < u32::MAX {
                            e.access_count + 1
                        } else {
                            u32::MAX
                        };
                        e.last_access = now;
                        let copy = e.clone();
                        records.set(at, e);
                        out.push(copy);
                        proof {
                            let t = touched(rs[at as int], now);
                            assert(copy@ == t);
                            assert(records.deep_view() =~= rs.update(at as int, t));
                            assert(out.deep_view() =~= got.push(t));
                            assert forall|a: int, b: int|
                                0 <= a < b < records.deep_view().len() implies records.deep_view()[a].id
                                != records.deep_view()[b].id by {
                                assert(records.deep_view()[a].id == rs[a].id);
                                assert(records.deep_view()[b].id == rs[b].id);
                            }
                        }
                    }
                },
                None => {},
            }
        }
        i += 1;
    }
    assert(ids.deep_view().take(ids.len() as int) =~= ids.deep_view());
    out
}

/// The store behind the memory.
pub struct EnhancedDatabase {
    vector_store: VectorStore,
    kv_cache: Vec<(String, String)>,
    max_kv_cache: usize,
    entries: Vec<EnhancedMemoryEntry>,
}

impl EnhancedDatabase {
    /// The entries of the vector index.
    pub closed spec fn vectors(&self) -> Seq<MemoryVectorView> {
        self.vector_store@
    }

    /// The greatest number of entries that the vector index keeps.
    pub closed spec fn vector_capacity(&self) -> nat {
        self.vector_store.capacity()
    }

    /// The facts, the one used least recently first.
    pub closed spec fn facts(&self) -> Facts {
        self.kv_cache.deep_view()
    }

    /// The greatest number of facts that are kept.
    pub closed spec fn fact_capacity(&self) -> nat {
        self.max_kv_cache as nat
    }

    /// The episodic records.
    pub closed spec fn records(&self) -> Records {
        self.entries.deep_view()
    }

    /// Identifiers and keys are unique, and index and facts within their
    /// bounds.
    pub open spec fn wf(&self) -> bool {
        &&& unique_ids(self.vectors())
        &&& self.vectors().len() <= self.vector_capacity()
        &&& unique_keys(self.facts())
        &&& self.facts().len() <= self.fact_capacity()
        &&& unique_records(self.records())
    }

    /// An empty store with room for `max_vectors` index entries and
    /// `max_kv_cache` facts.
    pub fn new(max_vectors: usize, max_kv_cache: usize) -> (r: Self)
        ensures
            r.wf(),
            r.vectors() == Seq::<MemoryVectorView>::empty(),
            r.facts() == Facts::empty(),
            r.records() == Records::empty(),
            r.vector_capacity() == max_vectors,
            r.fact_capacity() == max_kv_cache,
    {
        let r = EnhancedDatabase {
            vector_store: VectorStore::new(max_vectors),
            kv_cache: Vec::new(),
            max_kv_cache,
            entries: Vec::new(),
        };
        assert(r.facts() =~= Facts::empty());
        assert(r.records() =~= Records::empty());
        r
    }

    /// A store filled with what was saved before: the index entries, the
    /// facts and the records, each added one after the other.
    pub fn restore(
        vectors: Vec<MemoryVector>,
        facts: Vec<(String, String)>,
        records: Vec<EnhancedMemoryEntry>,
        max_vectors: usize,
        max_kv_cache: usize,
    ) -> (r: Self)
        ensures
            r.wf(),
            r.vectors() == added_all(Seq::empty(), vectors.deep_view(), max_vectors as nat),
            r.facts() == with_facts(Seq::empty(), facts.deep_view(), max_kv_cache as nat),
            r.records() == with_records(Seq::empty(), records.deep_view()),
            r.vector_capacity() == max_vectors,
            r.fact_capacity() == max_kv_cache,
    {
        let mut db = EnhancedDatabase {
            vector_store: VectorStore::with_vectors(vectors, max_vectors),
            kv_cache: Vec::new(),
            max_kv_cache,
            entries: Vec::new(),
        };
        assert(db.facts() =~= Facts::empty());
        assert(db.records() =~= Records::empty());
        let mut i: usize = 0;
        assert(facts.deep_view().take(0) =~= Facts::empty());
        while i < facts.len()
            invariant
                i <= facts.len(),
                db.wf(),
                db.vectors() == added_all(Seq::empty(), vectors.deep_view(), max_vectors as nat),
                db.vector_capacity() == max_vectors,
                db.fact_capacity() == max_kv_cache,
                db.records() == Records::empty(),
                db.facts() == with_facts(
                    Seq::empty(),
                    facts.deep_view().take(i as int),
                    max_kv_cache as nat,
                ),
            decreases facts.len() - i,
        {
            proof {
                let next = facts.deep_view().take(i + 1);
                assert(next.drop_last() =~= facts.deep_view().take(i as int));
                assert(next.last() == facts.deep_view()[i as int]);
            }
            db.set_key_value(facts[i].0.as_str(), facts[i].1.as_str());
            i += 1;
        }
        assert(facts.deep_view().take(facts.len() as int) =~= facts.deep_view());
        let mut k: usize = 0;
        assert(records.deep_view().take(0) =~= Records::empty());
        while k < records.len()
            invariant
                k <= records.len(),
                db.wf(),
                db.vectors() == added_all(Seq::empty(), vectors.deep_view(), max_vectors as nat),
                db.vector_capacity() == max_vectors,
                db.fact_capacity() == max_kv_cache,
                db.facts() == with_facts(Seq::empty(), facts.deep_view(), max_kv_cache as nat),
                db.records() == with_records(Seq::empty(), records.deep_view().take(k as int)),
            decreases records.len() - k,
        {
            proof {
                let next = records.deep_view().take(k + 1);
                assert(next.drop_last() =~= records.deep_view().take(k as int));
                assert(next.last() == records[k as int]@);
            }
            put_record(&mut db.entries, records[k].clone());
            k += 1;
        }
        assert(records.deep_view().take(records.len() as int) =~= records.deep_view());
        db
    }

    /// The first reading at or after `nanos` whose identifier is free.
    fn free_reading(&self, nanos: u128) -> (n: u128)
        requires
            self.wf(),
        ensures
            n == fresh_reading(self.records(), self.vectors(), nanos),
            is_free(self.records(), self.vectors(), n),
    {
        let held = self.vector_store.len();
        proof {
            assert(self.records().len() == self.entries.len());
            assert(self.vectors().len() == held);
            lemma_fresh_reading(self.records(), self.vectors(), nanos);
        }
        let ghost goal = first_free_offset(self.records(), self.vectors(), nanos);
        let ghost mut k: nat = 0;
        let mut n: u128 = nanos;
        loop
            invariant
                self.wf(),
                is_first_free(self.records(), self.vectors(), nanos, goal),
                goal <= self.records().len() + self.vectors().len(),
                self.records().len() + self.vectors().len() <= u128::MAX,
                k <= goal,
                n == reading_after(nanos, k),
                forall|j: nat|
                    j < k ==> !is_free(
                        self.records(),
                        self.vectors(),
                        #[trigger] reading_after(nanos, j),
                    ),
            decreases goal - k,
        {
            let id = generate_id(n);
            let taken = find_record(&self.entries, id.as_str()).is_some()
                || self.vector_store.get_vector(id.as_str()).is_some();
            if !taken {
                proof {
                    if k < goal {
                        assert(!is_free(
                            self.records(),
                            self.vectors(),
                            reading_after(nanos, k),
                        ));
                    }
                }
                return n;
            }
            proof {
                assert(k != goal);
                assert forall|j: nat| j < k + 1 implies !is_free(
                    self.records(),
                    self.vectors(),
                    #[trigger] reading_after(nanos, j),
                ) by {
                    if j == k {
                    }
                }
                k = k + 1;
            }
            n = if n == u128::MAX {
                0
            } else {
                n + 1
            };
        }
    }

    /// Stores an execution: a record of it, and an entry of the vector index
    /// under the same identifier. The identifier is new to the store: it is
    /// made from the time `nanos`, or, where that identifier is taken, from
    /// the first later reading whose identifier is free. So no earlier record
    /// is replaced; the record is appended. `now` is the time in seconds and
    /// `embedding` the embedding of the task and the result. Returns the
    /// identifier.
    pub fn store_execution(
        &mut self,
        task: &str,
        code: &str,
        result: &str,
        tags: Vec<String>,
        importance: u8,
        embedding: Vec<u32>,
        nanos: u128,
        now: u64,
    ) -> (id: String)
        requires
            old(self).wf(),
        ensures
            final(self).wf(),
            id@ == record_id(fresh_reading(old(self).records(), old(self).vectors(), nanos)),
            !has_record(old(self).records(), id@),
            !holds(old(self).vectors(), id@),
            final(self).records() == records_with_execution(
                old(self).records(),
                old(self).vectors(),
                task@,
                code@,
                result@,
                tags.deep_view(),
                importance,
                nanos,
                now,
            ),
            final(self).vectors() == vectors_with_execution(
                old(self).records(),
                old(self).vectors(),
                old(self).vector_capacity(),
                task@,
                result@,
                embedding@,
                nanos,
                now,
            ),
            final(self).facts() == old(self).facts(),
            final(self).vector_capacity() == old(self).vector_capacity(),
            final(self).fact_capacity() == old(self).fact_capacity(),
    {
        let reading = self.free_reading(nanos);
        let id = generate_id(reading);
        let entry = EnhancedMemoryEntry {
            id: id.clone(),
            task: String::from_str(task),
            code: String::from_str(code),
            result: String::from_str(result),
            timestamp: now,
            tags,
            importance,
            access_count: 0,
            last_access: now,
        };
        let mut content = String::from_str(task);
        content.append(" ");
        content.append(result);
        let mut metadata: Vec<(String, String)> = Vec::new();
        metadata.push((String::from_str("task"), String::from_str(task)));
        metadata.push((String::from_str("timestamp"), decimal_string(now as u128)));
        proof {
            let notes = metadata.deep_view();
            assert(notes =~= seq![("task"@, task@), ("timestamp"@, decimal(now as nat))]);
            assert(notes.drop_last() =~= seq![("task"@, task@)]);
            assert(notes.drop_last().drop_last() =~= Seq::empty());
            assert(as_map(notes) == Map::<Seq<char>, Seq<char>>::empty().insert(
                "task"@,
                task@,
            ).insert("timestamp"@, decimal(now as nat))) by {
                reveal_with_fuel(as_map, 3);
            }
        }
        let memory_vector = MemoryVector {
            id: id.clone(),
            vector: embedding,
            content,
            metadata,
            timestamp: now,
        };
        self.vector_store.add_vector(memory_vector);
        put_record(&mut self.entries, entry);
        id
    }

    /// The records of the entries most similar to a query, most similar
    /// first, at most `limit` of them; `scores` holds one score per index
    /// entry. Each record that is returned is touched at `now`; an index
    /// entry without a record is passed over.
    pub fn query_relevant(&mut self, scores: &Vec<i64>, limit: usize, now: u64) -> (r: Vec<
        EnhancedMemoryEntry,
    >)
        requires
            old(self).wf(),
        ensures
            final(self).wf(),
            (final(self).records(), r.deep_view()) == retrieval(
                old(self).records(),
                relevant_ids(old(self).vectors(), scores@, limit as nat),
                now,
            ),
            final(self).vectors() == old(self).vectors(),
            final(self).facts() == old(self).facts(),
            final(self).vector_capacity() == old(self).vector_capacity(),
            final(self).fact_capacity() == old(self).fact_capacity(),
    {
        let ranked = self.vector_store.find_similar(scores, limit);
        let ids = ids_in(&ranked);
        let tags: Vec<String> = Vec::new();
        assert(tags.deep_view() =~= Seq::<Seq<char>>::empty());
        visit(&mut self.entries, &ids, &tags, ids.len(), now)
    }

    /// Stores `value` under `key`, as the fact used last. Where that makes
    /// one fact too many, the fact that was used least recently leaves.
    pub fn set_key_value(&mut self, key: &str, value: &str)
        requires
            old(self).wf(),
        ensures
            final(self).wf(),
            final(self).facts() == with_fact(
                old(self).facts(),
                key@,
                value@,
                old(self).fact_capacity(),
            ),
            final(self).vectors() == old(self).vectors(),
            final(self).records() == old(self).records(),
            final(self).vector_capacity() == old(self).vector_capacity(),
            final(self).fact_capacity() == old(self).fact_capacity(),
    {
        let ghost before = self.facts();
        proof {
            lemma_with_fact_wf(before, key@, value@, self.fact_capacity());
        }
        match find_key(&self.kv_cache, key) {
            Some(i) => {
                self.kv_cache.remove(i);
                assert(self.facts() =~= without_key(before, key@));
            },
            None => {},
        }
        let ghost rest = self.facts();
        self.kv_cache.push((String::from_str(key), String::from_str(value)));
        assert(self.facts() =~= rest.push((key@, value@)));
        if self.kv_cache.len() > self.max_kv_cache {
            let ghost longer = self.facts();
            self.kv_cache.remove(0);
            assert(self.facts() =~= longer.drop_first());
        }
    }

    /// The value stored under `key`; reading it makes the fact the one used
    /// last. Fails where nothing is stored under the key.
    pub fn get_key_value(&mut self, key: &str) -> (r: Result<String, Error>)
        requires
            old(self).wf(),
        ensures
            final(self).wf(),
            r is Ok == has_key(old(self).facts(), key@),
            r matches Ok(v) ==> v@ == value_of(old(self).facts(), key@),
            r matches Err(e) ==> e matches Error::KeyNotFoundError(k) && k@ == key@,
            final(self).facts() == used(old(self).facts(), key@),
            final(self).vectors() == old(self).vectors(),
            final(self).records() == old(self).records(),
            final(self).vector_capacity() == old(self).vector_capacity(),
            final(self).fact_capacity() == old(self).fact_capacity(),
    {
        let ghost before = self.facts();
        proof {
            lemma_used_wf(before, key@);
        }
        match find_key(&self.kv_cache, key) {
            Some(i) => {
                assert(before[i as int] == (self.kv_cache[i as int].0@, self.kv_cache[i as int].1@));
                let pair = self.kv_cache.remove(i);
                let value = pair.1.clone();
                let ghost rest = self.facts();
                assert(rest =~= before.remove(i as int));
                self.kv_cache.push(pair);
                assert(self.facts() =~= rest.push((key@, value@)));
                Ok(value)
            },
            None => Err(Error::KeyNotFoundError(String::from_str(key))),
        }
    }

    /// Deletes the fact stored under `key`, if there is one.
    pub fn delete_key_value(&mut self, key: &str)
        requires
            old(self).wf(),
        ensures
            final(self).wf(),
            final(self).facts() == without_key(old(self).facts(), key@),
            final(self).vectors() == old(self).vectors(),
            final(self).records() == old(self).records(),
            final(self).vector_capacity() == old(self).vector_capacity(),
            final(self).fact_capacity() == old(self).fact_capacity(),
    {
        let ghost before = self.facts();
        proof {
            lemma_without_key(before, key@);
        }
        match find_key(&self.kv_cache, key) {
            Some(i) => {
                self.kv_cache.remove(i);
                assert(self.facts() =~= before.remove(i as int));
            },
            None => {},
        }
    }

    /// The records that have all of `tags`, in the order of the vector
    /// index, at most `limit` of them. Each record that is returned is
    /// touched at `now`.
    pub fn search_by_tags(&mut self, tags: &Vec<String>, limit: usize, now: u64) -> (r: Vec<
        EnhancedMemoryEntry,
    >)
        requires
            old(self).wf(),
        ensures
            final(self).wf(),
            (final(self).records(), r.deep_view()) == visited(
                old(self).records(),
                ids_of(old(self).vectors()),
                tags.deep_view(),
                limit as nat,
                now,
            ),
            final(self).vectors() == old(self).vectors(),
            final(self).facts() == old(self).facts(),
            final(self).vector_capacity() == old(self).vector_capacity(),
            final(self).fact_capacity() == old(self).fact_capacity(),
    {
        let all = self.vector_store.get_all_vectors();
        let mut ids: Vec<String> = Vec::new();
        let mut i: usize = 0;
        while i < all.len()
            invariant
                i <= all.len(),
                all.deep_view() == self.vector_store@,
                ids.len() == i,
                forall|j: int| 0 <= j < i ==> ids[j]@ == all[j].id@,
            decreases all.len() - i,
        {
            ids.push(all[i].id.clone());
            i += 1;
        }
        assert(ids.deep_view() =~= ids_of(self.vectors())) by {
            assert forall|j: int| 0 <= j < ids.len() implies ids.deep_view()[j] == ids_of(
                self.vectors(),
            )[j] by {
                assert(all.deep_view()[j] == all[j]@);
            }
        }
        visit(&mut self.entries, &ids, tags, limit, now)
    }

    /// The vector index.
    pub fn vector_store(&self) -> (r: &VectorStore)
        ensures
            r@ == self.vectors(),
            r.capacity() == self.vector_capacity(),
    {
        &self.vector_store
    }

    /// The facts, the one used least recently first.
    pub fn get_facts(&self) -> (r: &Vec<(String, String)>)
        ensures
            r.deep_view() == self.facts(),
    {
        &self.kv_cache
    }

    /// The episodic records.
    pub fn get_records(&self) -> (r: &Vec<EnhancedMemoryEntry>)
        ensures
            r.deep_view() == self.records(),
    {
        &self.entries
    }
}

fn ids_in(vectors: &Vec<&MemoryVector>) -> (ids: Vec<String>)
    ensures
        ids.deep_view() == ids_of(vectors.deep_view()),
{
    let mut ids: Vec<String> = Vec::new();
    let mut i: usize = 0;
    while i < vectors.len()
        invariant
            i <= vectors.len(),
            ids.len() == i,
            forall|j: int| 0 <= j < i ==> ids[j]@ == vectors[j].id@,
        decreases vectors.len() - i,
    {
        ids.push(vectors[i].id.clone());
        i += 1;
    }
    assert(ids.deep_view() =~= ids_of(vectors.deep_view())) by {
        assert forall|j: int| 0 <= j < ids.len() implies ids.deep_view()[j] == ids_of(
            vectors.deep_view(),
        )[j] by {
            assert(vectors.deep_view()[j] == vectors[j]@);
        }
    }
    ids
}

/// The identifier of a record made at the time `nanos`, in nanoseconds.
pub fn generate_id(nanos: u128) -> (id: String)
    ensures
        id@ == record_id(nanos),
{
    let mut id = String::from_str("mem_");
    id.append(decimal_string(nanos).as_str());
    id
}

} // verus!
