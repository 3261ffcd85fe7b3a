//! Plain records of past executions, as the basic context is made from.

use vstd::prelude::*;

verus! {

/// A past execution.
#[derive(Debug)]
pub struct MemoryEntry {
    /// Identifier of the entry.
    pub id: String,
    /// The task description.
    pub task: String,
    /// The code that was run.
    pub code: String,
    /// What the run gave.
    pub result: String,
    /// When the entry was made, in seconds.
    pub timestamp: u64,
}

/// What a [`MemoryEntry`] holds.
pub struct MemoryEntryView {
    pub id: Seq<char>,
    pub task: Seq<char>,
    pub code: Seq<char>,
    pub result: Seq<char>,
    pub timestamp: u64,
}

impl View for MemoryEntry {
    type V = MemoryEntryView;

    open spec fn view(&self) -> MemoryEntryView {
        MemoryEntryView {
            id: self.id@,
            task: self.task@,
            code: self.code@,
            result: self.result@,
            timestamp: self.timestamp,
        }
    }
}

impl DeepView for MemoryEntry {
    type V = MemoryEntryView;

    open spec fn deep_view(&self) -> MemoryEntryView {
        self@
    }
}

impl Clone for MemoryEntry {
    fn clone(&self) -> (r: Self)
        ensures
            r@ == self@,
    {
        MemoryEntry {
            id: self.id.clone(),
            task: self.task.clone(),
            code: self.code.clone(),
            result: self.result.clone(),
            timestamp: self.timestamp,
        }
    }
}

} // verus!
