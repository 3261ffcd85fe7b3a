//! The semantic memory: the store, with the limits of its configuration, and
//! what it retrieves as text.

use vstd::prelude::*;
use vstd::string::StringExecFns;
use crate::decimal::{decimal, join, join_seq, push_decimal};
use crate::memory::config::Config;
use crate::memory::enhanced::database::{
    fresh_reading,
    has_record,
    ids_of,
    record_id,
    records_with_execution,
    relevant_ids,
    retrieval,
    vectors_with_execution,
    visited,
    with_records,
    EnhancedDatabase,
    EnhancedMemoryEntry,
    EnhancedMemoryEntryView,
    Records,
};
use crate::memory::enhanced::facts::{used, with_fact, with_facts, without_key, Facts};
use crate::memory::enhanced::vector_store::{added_all, holds, MemoryVector, MemoryVectorView};
use crate::memory::error::Error;
use crate::pairs::{has_key, value_of};

verus! {

/// What a semantic memory holds.
pub struct MemoryState {
    /// The entries of the vector index.
    pub vectors: Seq<MemoryVectorView>,
    /// The episodic records.
    pub records: Records,
    /// The facts, the one used least recently first.
    pub facts: Facts,
    /// The greatest number of index entries.
    pub vector_capacity: nat,
    /// The greatest number of facts.
    pub fact_capacity: nat,
    /// The greatest number of records in a context.
    pub context_limit: nat,
    /// The greatest number of records that a search gives.
    pub search_limit: nat,
}

/// A record as a section of a context.
pub open spec fn context_entry(e: EnhancedMemoryEntryView) -> Seq<char> {
    "Task: "@ + e.task + "\nCode:\n"@ + e.code + "\nResult:\n"@ + e.result + "\nTags: "@
        + join_seq(e.tags, ", "@) + "\nImportance: "@ + decimal(e.importance as nat) + "\n\n"@
}

/// Records as a context, one section after the other.
pub open spec fn context_text(entries: Records) -> Seq<char>
    decreases entries.len(),
{
    if entries.len() == 0 {
        Seq::empty()
    } else {
        context_text(entries.drop_last()) + context_entry(entries.last())
    }
}

/// A record as a section of a search result.
pub open spec fn found_entry(e: EnhancedMemoryEntryView) -> Seq<char> {
    "Task: "@ + e.task + "\nCode:\n"@ + e.code + "\nResult:\n"@ + e.result + "\nTags: "@
        + join_seq(e.tags, ", "@) + "\nImportance: "@ + decimal(e.importance as nat)
        + "\nAccess Count: "@ + decimal(e.access_count as nat) + "\n\n"@
}

/// Records as a search result, one section after the other.
pub open spec fn found_text(entries: Records) -> Seq<char>
    decreases entries.len(),
{
    if entries.len() == 0 {
        Seq::empty()
    } else {
        found_text(entries.drop_last()) + found_entry(entries.last())
    }
}

/// Formats records as a context.
pub fn format_entries(entries: &Vec<EnhancedMemoryEntry>) -> (r: String)
    ensures
        r@ == context_text(entries.deep_view()),
{
    let mut out = String::new();
    let mut i: usize = 0;
    assert(out@ =~= context_text(entries.deep_view().take(0)));
    while i < entries.len()
        invariant
            i <= entries.len(),
            out@ == context_text(entries.deep_view().take(i as int)),
        decreases entries.len() - i,
    {
        let ghost next = entries.deep_view().take(i + 1);
        let ghost before = out@;
        let e = &entries[i];
        out.append("Task: ");
        out.append(e.task.as_str());
        out.append("\nCode:\n");
        out.append(e.code.as_str());
        out.append("\nResult:\n");
        out.append(e.result.as_str());
        out.append("\nTags: ");
        out.append(join(&e.tags, ", ").as_str());
        out.append("\nImportance: ");
        push_decimal(&mut out, e.importance as u128);
        out.append("\n\n");
        proof {
            assert(next.drop_last() =~= entries.deep_view().take(i as int));
            assert(next.last() == entries[i as int]@);
            assert(out@ =~= before + context_entry(e@));
        }
        i += 1;
    }
    assert(entries.deep_view().take(entries.len() as int) =~= entries.deep_view());
    out
}

/// Formats records as a search result.
pub fn format_found(entries: &Vec<EnhancedMemoryEntry>) -> (r: String)
    ensures
        r@ == found_text(entries.deep_view()),
{
    let mut out = String::new();
    let mut i: usize = 0;
    assert(out@ =~= found_text(entries.deep_view().take(0)));
    while i < entries.len()
        invariant
            i <= entries.len(),
            out@ == found_text(entries.deep_view().take(i as int)),
        decreases entries.len() - i,
    {
        let ghost next = entries.deep_view().take(i + 1);
        let ghost before = out@;
        let e = &entries[i];
        out.append("Task: ");
        out.append(e.task.as_str());
        out.append("\nCode:\n");
        out.append(e.code.as_str());
        out.append("\nResult:\n");
        out.append(e.result.as_str());
        out.append("\nTags: ");
        out.append(join(&e.tags, ", ").as_str());
        out.append("\nImportance: ");
        push_decimal(&mut out, e.importance as u128);
        out.append("\nAccess Count: ");
        push_decimal(&mut out, e.access_count as u128);
        out.append("\n\n");
        proof {
            assert(next.drop_last() =~= entries.deep_view().take(i as int));
            assert(next.last() == entries[i as int]@);
            assert(out@ =~= before + found_entry(e@));
        }
        i += 1;
    }
    assert(entries.deep_view().take(entries.len() as int) =~= entries.deep_view());
    out
}

/// The semantic memory.
pub struct EnhancedMemory {
    config: Config,
    db: EnhancedDatabase,
}

impl View for EnhancedMemory {
    type V = MemoryState;

    closed spec fn view(&self) -> MemoryState {
        MemoryState {
            vectors: self.db.vectors(),
            records: self.db.records(),
            facts: self.db.facts(),
            vector_capacity: self.db.vector_capacity(),
            fact_capacity: self.db.fact_capacity(),
            context_limit: self.config.max_context_entries as nat,
            search_limit: self.config.max_search_results as nat,
        }
    }
}

impl EnhancedMemory {
    /// The store is well-formed.
    pub closed spec fn wf(&self) -> bool {
        self.db.wf()
    }

    /// An empty memory with the limits of `config`.
    pub fn new(config: &Config) -> (r: Self)
        ensures
            r.wf(),
            r@ == (MemoryState {
                vectors: Seq::empty(),
                records: Seq::empty(),
                facts: Seq::empty(),
                vector_capacity: config.max_vectors as nat,
                fact_capacity: config.max_kv_cache as nat,
                context_limit: config.max_context_entries as nat,
                search_limit: config.max_search_results as nat,
            }),
    {
        EnhancedMemory {
            config: config.clone(),
            db: EnhancedDatabase::new(config.max_vectors, config.max_kv_cache),
        }
    }

    /// A memory with the limits of `config`, filled with what was saved
    /// before.
    pub fn restore(
        config: &Config,
        vectors: Vec<MemoryVector>,
        facts: Vec<(String, String)>,
        records: Vec<EnhancedMemoryEntry>,
    ) -> (r: Self)
        ensures
            r.wf(),
            r@ == (MemoryState {
                vectors: added_all(Seq::empty(), vectors.deep_view(), config.max_vectors as nat),
                records: with_records(Seq::empty(), records.deep_view()),
                facts: with_facts(Seq::empty(), facts.deep_view(), config.max_kv_cache as nat),
                vector_capacity: config.max_vectors as nat,
                fact_capacity: config.max_kv_cache as nat,
                context_limit: config.max_context_entries as nat,
                search_limit: config.max_search_results as nat,
            }),
    {
        EnhancedMemory {
            config: config.clone(),
            db: EnhancedDatabase::restore(
                vectors,
                facts,
                records,
                config.max_vectors,
                config.max_kv_cache,
            ),
        }
    }

    /// Stores an execution under an identifier that is new to the store, made
    /// from the time `nanos` or the first later reading that is free; see
    /// [`EnhancedDatabase::store_execution`].
    pub fn store_execution(
        &mut self,
        task: &str,
        code: &str,
        result: &str,
        tags: Vec<String>,
        importance: u8,
        embedding: Vec<u32>,
        nanos: u128,
        now: u64,
    ) -> (id: String)
        requires
            old(self).wf(),
        ensures
            final(self).wf(),
            id@ == record_id(fresh_reading(old(self)@.records, old(self)@.vectors, nanos)),
            !has_record(old(self)@.records, id@),
            !holds(old(self)@.vectors, id@),
            final(self)@ == (MemoryState {
                vectors: vectors_with_execution(
                    old(self)@.records,
                    old(self)@.vectors,
                    old(self)@.vector_capacity,
                    task@,
                    result@,
                    embedding@,
                    nanos,
                    now,
                ),
                records: records_with_execution(
                    old(self)@.records,
                    old(self)@.vectors,
                    task@,
                    code@,
                    result@,
                    tags.deep_view(),
                    importance,
                    nanos,
                    now,
                ),
                ..old(self)@
            }),
    {
        self.db.store_execution(task, code, result, tags, importance, embedding, nanos, now)
    }

    /// The context for a task: the records of the index entries most similar
    /// to it by `scores`, as many as the configuration allows, as text. Each
    /// record that goes into the context is touched at `now`.
    pub fn retrieve_context(&mut self, scores: &Vec<i64>, now: u64) -> (r: String)
        requires
            old(self).wf(),
        ensures
            final(self).wf(),
            r@ == context_text(
                retrieval(
                    old(self)@.records,
                    relevant_ids(old(self)@.vectors, scores@, old(self)@.context_limit),
                    now,
                ).1,
            ),
            final(self)@ == (MemoryState {
                records: retrieval(
                    old(self)@.records,
                    relevant_ids(old(self)@.vectors, scores@, old(self)@.context_limit),
                    now,
                ).0,
                ..old(self)@
            }),
    {
        let limit = self.config.max_context_entries;
        let entries = self.db.query_relevant(scores, limit, now);
        format_entries(&entries)
    }

    /// Stores `value` under `key`.
    pub fn set_key_value(&mut self, key: &str, value: &str)
        requires
            old(self).wf(),
        ensures
            final(self).wf(),
            final(self)@ == (MemoryState {
                facts: with_fact(old(self)@.facts, key@, value@, old(self)@.fact_capacity),
                ..old(self)@
            }),
    {
        self.db.set_key_value(key, value)
    }

    /// The value stored under `key`. Fails where nothing is stored under the
    /// key.
    pub fn get_key_value(&mut self, key: &str) -> (r: Result<String, Error>)
        requires
            old(self).wf(),
        ensures
            final(self).wf(),
            r is Ok == has_key(old(self)@.facts, key@),
            r matches Ok(v) ==> v@ == value_of(old(self)@.facts, key@),
            r matches Err(e) ==> e matches Error::KeyNotFoundError(k) && k@ == key@,
            final(self)@ == (MemoryState { facts: used(old(self)@.facts, key@), ..old(self)@ }),
    {
        self.db.get_key_value(key)
    }

    /// Deletes the fact stored under `key`, if there is one.
    pub fn delete_key_value(&mut self, key: &str)
        requires
            old(self).wf(),
        ensures
            final(self).wf(),
            final(self)@ == (MemoryState {
                facts: without_key(old(self)@.facts, key@),
                ..old(self)@
            }),
    {
        self.db.delete_key_value(key)
    }

    /// The records that have all of `tags`, as many as the configuration
    /// allows, as text. Each record that is found is touched at `now`.
    pub fn search_by_tags(&mut self, tags: &Vec<String>, now: u64) -> (r: String)
        requires
            old(self).wf(),
        ensures
            final(self).wf(),
            r@ == found_text(
                visited(
                    old(self)@.records,
                    ids_of(old(self)@.vectors),
                    tags.deep_view(),
                    old(self)@.search_limit,
                    now,
                ).1,
            ),
            final(self)@ == (MemoryState {
                records: visited(
                    old(self)@.records,
                    ids_of(old(self)@.vectors),
                    tags.deep_view(),
                    old(self)@.search_limit,
                    now,
                ).0,
                ..old(self)@
            }),
    {
        let limit = self.config.max_search_results;
        let entries = self.db.search_by_tags(tags, limit, now);
        format_found(&entries)
    }

    /// The store.
    pub fn database(&self) -> (r: &EnhancedDatabase)
        ensures
            r.vectors() == self@.vectors,
            r.records() == self@.records,
            r.facts() == self@.facts,
            r.vector_capacity() == self@.vector_capacity,
            r.fact_capacity() == self@.fact_capacity,
            r.wf() == self.wf(),
    {
        &self.db
    }
}

} // verus!
