//! Settings of the memory.

use vstd::prelude::*;

verus! {

/// Settings of the memory.
#[derive(Debug)]
pub struct Config {
    /// How many entries a plain query returns at most.
    pub max_entries: usize,
    /// Whether the semantic store is used.
    pub use_enhanced_memory: bool,
    /// How many vectors the index keeps at most.
    pub max_vectors: usize,
    /// How many facts are kept at most.
    pub max_kv_cache: usize,
    /// How many records go into a context at most.
    pub max_context_entries: usize,
    /// How many records a search by tags returns at most.
    pub max_search_results: usize,
    /// Whether records are found by similarity.
    pub enable_semantic_search: bool,
    /// Whether retrievals are counted.
    pub track_access_stats: bool,
}

impl Default for Config {
    fn default() -> (r: Self)
        ensures
            r.max_entries == 10,
            r.use_enhanced_memory,
            r.max_vectors == 1000,
            r.max_kv_cache == 500,
            r.max_context_entries == 5,
            r.max_search_results == 10,
            r.enable_semantic_search,
            r.track_access_stats,
    {
        Config {
            max_entries: 10,
            use_enhanced_memory: true,
            max_vectors: 1000,
            max_kv_cache: 500,
            max_context_entries: 5,
            max_search_results: 10,
            enable_semantic_search: true,
            track_access_stats: true,
        }
    }
}

impl Clone for Config {
    fn clone(&self) -> (r: Self)
        ensures
            r == *self,
    {
        Config {
            max_entries: self.max_entries,
            use_enhanced_memory: self.use_enhanced_memory,
            max_vectors: self.max_vectors,
            max_kv_cache: self.max_kv_cache,
            max_context_entries: self.max_context_entries,
            max_search_results: self.max_search_results,
            enable_semantic_search: self.enable_semantic_search,
            track_access_stats: self.track_access_stats,
        }
    }
}

} // verus!
