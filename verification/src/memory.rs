//! The memory of the agent: what it did before, and the facts it was told.

use vstd::prelude::*;
use vstd::string::StringExecFns;
use crate::memory::config::Config;
use crate::memory::context::{format_context, NO_CONTEXT};
use crate::memory::enhanced::database::{
    ids_of,
    records_with_execution,
    relevant_ids,
    retrieval,
    vectors_with_execution,
    visited,
};
use crate::memory::enhanced::facts::{used, with_fact, without_key};
use crate::memory::enhanced::memory::{
    context_text,
    found_text,
    EnhancedMemory,
    MemoryState,
};
use crate::memory::error::Error;
use crate::memory::storage::MemoryEntry;
use crate::pairs::{has_key, value_of};

pub mod config;
pub mod context;
pub mod enhanced;
pub mod error;
pub mod storage;

verus! {

/// The tag of every execution that the memory stores.
pub const EXECUTION_TAG: &'static str = "execution";

/// The importance of every execution that the memory stores.
pub const DEFAULT_IMPORTANCE: u8 = 50;

/// Why a memory without a semantic store cannot search by tags.
pub const NO_TAG_SEARCH: &'static str = "Tag search requires enhanced memory";

/// The records after a context was retrieved from the state `s`.
pub open spec fn context_records(s: MemoryState, scores: Seq<i64>, now: u64) -> (
    Seq<crate::memory::enhanced::database::EnhancedMemoryEntryView>,
    Seq<crate::memory::enhanced::database::EnhancedMemoryEntryView>,
) {
    retrieval(s.records, relevant_ids(s.vectors, scores, s.context_limit), now)
}

/// The context that a memory in the state `state` gives for a query.
pub open spec fn context_from(state: Option<MemoryState>, scores: Seq<i64>, now: u64) -> Seq<char> {
    match state {
        Some(s) => context_text(context_records(s, scores, now).1),
        None => NO_CONTEXT@,
    }
}

/// The state of a memory after it gave the context for a query.
pub open spec fn after_context(state: Option<MemoryState>, scores: Seq<i64>, now: u64) -> Option<
    MemoryState,
> {
    match state {
        Some(s) => Some(MemoryState { records: context_records(s, scores, now).0, ..s }),
        None => None,
    }
}

/// The memory of the agent. It keeps a semantic store unless its
/// configuration turns that off; without one it remembers nothing.
pub struct Memory {
    config: Config,
    enhanced: Option<EnhancedMemory>,
}

impl View for Memory {
    type V = Option<MemoryState>;

    /// What the semantic store holds, if there is one.
    closed spec fn view(&self) -> Option<MemoryState> {
        match self.enhanced {
            Some(m) => Some(m@),
            None => None,
        }
    }
}

impl Memory {
    /// The semantic store, if there is one, is well-formed.
    pub closed spec fn wf(&self) -> bool {
        match self.enhanced {
            Some(m) => m.wf(),
            None => true,
        }
    }

    /// An empty memory with the default configuration.
    pub fn new() -> (r: Self)
        ensures
            r.wf(),
            r@ == Some(
                MemoryState {
                    vectors: Seq::empty(),
                    records: Seq::empty(),
                    facts: Seq::empty(),
                    vector_capacity: 1000,
                    fact_capacity: 500,
                    context_limit: 5,
                    search_limit: 10,
                },
            ),
    {
        Memory::with_config(Config::default())
    }

    /// An empty memory with the given configuration.
    pub fn with_config(config: Config) -> (r: Self)
        ensures
            r.wf(),
            r@ == if config.use_enhanced_memory {
                Some(
                    MemoryState {
                        vectors: Seq::empty(),
                        records: Seq::empty(),
                        facts: Seq::empty(),
                        vector_capacity: config.max_vectors as nat,
                        fact_capacity: config.max_kv_cache as nat,
                        context_limit: config.max_context_entries as nat,
                        search_limit: config.max_search_results as nat,
                    },
                )
            } else {
                None
            },
    {
        let enhanced = if config.use_enhanced_memory {
            Some(EnhancedMemory::new(&config))
        } else {
            None
        };
        Memory { config, enhanced }
    }

    /// A memory around a semantic store that was filled before.
    pub fn with_store(config: Config, store: EnhancedMemory) -> (r: Self)
        requires
            store.wf(),
        ensures
            r.wf(),
            r@ == Some(store@),
    {
        Memory { config, enhanced: Some(store) }
    }

    /// Stores the result of a task: the execution, tagged as one, of medium
    /// importance, under an identifier that is new to the store. `embedding`
    /// is the embedding of the task and the result, `nanos` and `now` the
    /// time in nanoseconds and in seconds.
    pub fn store_result(
        &mut self,
        task: &str,
        code: &str,
        result: &str,
        embedding: Vec<u32>,
        nanos: u128,
        now: u64,
    )
        requires
            old(self).wf(),
        ensures
            final(self).wf(),
            final(self)@ == match old(self)@ {
                Some(s) => Some(
                    MemoryState {
                        vectors: vectors_with_execution(
                            s.records,
                            s.vectors,
                            s.vector_capacity,
                            task@,
                            result@,
                            embedding@,
                            nanos,
                            now,
                        ),
                        records: records_with_execution(
                            s.records,
                            s.vectors,
                            task@,
                            code@,
                            result@,
                            seq![EXECUTION_TAG@],
                            DEFAULT_IMPORTANCE,
                            nanos,
                            now,
                        ),
                        ..s
                    },
                ),
                None => None,
            },
    {
        match &mut self.enhanced {
            Some(enhanced) => {
                let mut tags: Vec<String> = Vec::new();
                tags.push(String::from_str(EXECUTION_TAG));
                assert(tags.deep_view() =~= seq![EXECUTION_TAG@]);
                enhanced.store_execution(
                    task,
                    code,
                    result,
                    tags,
                    DEFAULT_IMPORTANCE,
                    embedding,
                    nanos,
                    now,
                );
            },
            None => {},
        }
    }

    /// The context for a task, from the records most similar to it by
    /// `scores`; the records that go into it are touched at `now`. A memory
    /// without a semantic store says that it found nothing.
    pub fn retrieve_context(&mut self, scores: &Vec<i64>, now: u64) -> (r: String)
        requires
            old(self).wf(),
        ensures
            final(self).wf(),
            r@ == context_from(old(self)@, scores@, now),
            final(self)@ == after_context(old(self)@, scores@, now),
    {
        match &mut self.enhanced {
            Some(enhanced) => enhanced.retrieve_context(scores, now),
            None => {
                let none: Vec<MemoryEntry> = Vec::new();
                let entries = none.as_slice();
                assert(entries.deep_view() =~= Seq::empty());
                format_context(entries)
            },
        }
    }

    /// Stores `value` under `key`.
    pub fn set_memory(&mut self, key: &str, value: &str)
        requires
            old(self).wf(),
        ensures
            final(self).wf(),
            final(self)@ == match old(self)@ {
                Some(s) => Some(
                    MemoryState { facts: with_fact(s.facts, key@, value@, s.fact_capacity), ..s },
                ),
                None => None,
            },
    {
        match &mut self.enhanced {
            Some(enhanced) => enhanced.set_key_value(key, value),
            None => {},
        }
    }

    /// The value stored under `key`. Fails where nothing is stored under the
    /// key.
    pub fn get_memory(&mut self, key: &str) -> (r: Result<String, Error>)
        requires
            old(self).wf(),
        ensures
            final(self).wf(),
            r is Ok == (old(self)@ matches Some(s) && has_key(s.facts, key@)),
            r matches Ok(v) ==> old(self)@ matches Some(s) && v@ == value_of(s.facts, key@),
            r matches Err(e) ==> e matches Error::KeyNotFoundError(k) && k@ == key@,
            final(self)@ == match old(self)@ {
                Some(s) => Some(MemoryState { facts: used(s.facts, key@), ..s }),
                None => None,
            },
    {
        match &mut self.enhanced {
            Some(enhanced) => enhanced.get_key_value(key),
            None => Err(Error::KeyNotFoundError(String::from_str(key))),
        }
    }

    /// Deletes the fact stored under `key`, if there is one.
    pub fn forget_key(&mut self, key: &str)
        requires
            old(self).wf(),
        ensures
            final(self).wf(),
            final(self)@ == match old(self)@ {
                Some(s) => Some(MemoryState { facts: without_key(s.facts, key@), ..s }),
                None => None,
            },
    {
        match &mut self.enhanced {
            Some(enhanced) => enhanced.delete_key_value(key),
            None => {},
        }
    }

    /// The records that have all of `tags`, as text; the records that are
    /// found are touched at `now`. Fails in a memory without a semantic
    /// store.
    pub fn search_by_tags(&mut self, tags: &Vec<String>, now: u64) -> (r: Result<String, Error>)
        requires
            old(self).wf(),
        ensures
            final(self).wf(),
            r is Ok == old(self)@ is Some,
            r matches Ok(text) ==> old(self)@ matches Some(s) && text@ == found_text(
                visited(s.records, ids_of(s.vectors), tags.deep_view(), s.search_limit, now).1,
            ),
            r matches Err(e) ==> e matches Error::UnsupportedOperationError(m) && m@
                == NO_TAG_SEARCH@,
            final(self)@ == match old(self)@ {
                Some(s) => Some(
                    MemoryState {
                        records: visited(
                            s.records,
                            ids_of(s.vectors),
                            tags.deep_view(),
                            s.search_limit,
                            now,
                        ).0,
                        ..s
                    },
                ),
                None => None,
            },
    {
        match &mut self.enhanced {
            Some(enhanced) => Ok(enhanced.search_by_tags(tags, now)),
            None => Err(Error::UnsupportedOperationError(String::from_str(NO_TAG_SEARCH))),
        }
    }

    /// The semantic store, if there is one.
    pub fn enhanced(&self) -> (r: Option<&EnhancedMemory>)
        ensures
            r is Some == self@ is Some,
            r matches Some(m) ==> Some(m@) == self@ && m.wf() == self.wf(),
    {
        self.enhanced.as_ref()
    }
}

} // verus!
