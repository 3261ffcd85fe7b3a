//! The basic context: past executions as text, and the keywords of a task.

use vstd::prelude::*;
use vstd::string::StringExecFns;
use crate::decimal::{decimal, push_decimal};
use crate::memory::storage::{MemoryEntry, MemoryEntryView};
use crate::split::{words, words_of};
use crate::text::{chars_of, contains_string, lowercase, str_eq, to_lowercase};

verus! {

/// What a context without entries says.
pub const NO_CONTEXT: &'static str = "No relevant previous executions found.";

/// The entries as numbered sections, counted from one.
pub open spec fn context_sections(entries: Seq<MemoryEntryView>) -> Seq<char>
    decreases entries.len(),
{
    if entries.len() == 0 {
        Seq::empty()
    } else {
        context_sections(entries.drop_last()) + "Execution "@ + decimal(entries.len())
            + ":\n- Task: "@ + entries.last().task + "\n- Code:\n```\n"@ + entries.last().code
            + "\n```\n- Result: "@ + entries.last().result + "\n\n"@
    }
}

/// The context that the entries make for a prompt.
pub open spec fn context_of(entries: Seq<MemoryEntryView>) -> Seq<char> {
    if entries.len() == 0 {
        NO_CONTEXT@
    } else {
        "Previous relevant executions:\n\n"@ + context_sections(entries)
    }
}

/// Formats past executions into the context of a prompt.
pub fn format_context(entries: &[MemoryEntry]) -> (r: String)
    ensures
        r@ == context_of(entries.deep_view()),
{
    if entries.len() == 0 {
        return String::from_str(NO_CONTEXT);
    }
    let mut context = String::from_str("Previous relevant executions:\n\n");
    let ghost head = context@;
    let mut i: usize = 0;
    assert(context@ =~= head + context_sections(entries.deep_view().take(0)));
    while i < entries.len()
        invariant
            i <= entries.len(),
            context@ == head + context_sections(entries.deep_view().take(i as int)),
        decreases entries.len() - i,
    {
        let ghost next = entries.deep_view().take(i + 1);
        context.append("Execution ");
        push_decimal(&mut context, (i as u128) + 1);
        context.append(":\n- Task: ");
        context.append(entries[i].task.as_str());
        context.append("\n- Code:\n```\n");
        context.append(entries[i].code.as_str());
        context.append("\n```\n- Result: ");
        context.append(entries[i].result.as_str());
        context.append("\n\n");
        proof {
            assert(next.drop_last() =~= entries.deep_view().take(i as int));
            assert(next.last() == entries[i as int]@);
            assert(context@ =~= head + context_sections(next));
        }
        i += 1;
    }
    assert(entries.deep_view().take(entries.len() as int) =~= entries.deep_view());
    context
}

/// A lowercase word that carries no meaning of its own.
pub open spec fn is_common_word(w: Seq<char>) -> bool {
    w == "a"@ || w == "an"@ || w == "the"@ || w == "and"@ || w == "or"@ || w == "but"@ || w
        == "in"@ || w == "on"@ || w == "at"@ || w == "to"@ || w == "for"@ || w == "with"@ || w
        == "is"@ || w == "are"@ || w == "was"@ || w == "were"@ || w == "be"@ || w == "been"@ || w
        == "being"@
}

/// The keywords among `words`: each word lowercased, the common ones left
/// out.
pub open spec fn keywords_of(words: Seq<Seq<char>>) -> Seq<Seq<char>>
    decreases words.len(),
{
    if words.len() == 0 {
        Seq::empty()
    } else {
        let rest = keywords_of(words.drop_last());
        let w = lowercase(words.last());
        if is_common_word(w) {
            rest
        } else {
            rest.push(w)
        }
    }
}

fn common_word(w: &str) -> (b: bool)
    ensures
        b == is_common_word(w@),
{
    str_eq(w, "a") || str_eq(w, "an") || str_eq(w, "the") || str_eq(w, "and") || str_eq(w, "or")
        || str_eq(w, "but") || str_eq(w, "in") || str_eq(w, "on") || str_eq(w, "at") || str_eq(
        w,
        "to",
    ) || str_eq(w, "for") || str_eq(w, "with") || str_eq(w, "is") || str_eq(w, "are") || str_eq(
        w,
        "was",
    ) || str_eq(w, "were") || str_eq(w, "be") || str_eq(w, "been") || str_eq(w, "being")
}

/// The keywords of a task description: its words, lowercased, without the
/// common ones.
pub fn extract_keywords(task_description: &str) -> (r: Vec<String>)
    ensures
        r.deep_view() == keywords_of(words_of(task_description@)),
{
    let chars = chars_of(task_description);
    let all = words(&chars);
    let mut out: Vec<String> = Vec::new();
    let mut i: usize = 0;
    assert(out.deep_view() =~= keywords_of(all.deep_view().take(0)));
    while i < all.len()
        invariant
            i <= all.len(),
            out.deep_view() == keywords_of(all.deep_view().take(i as int)),
        decreases all.len() - i,
    {
        let ghost before = out.deep_view();
        let ghost next = all.deep_view().take(i + 1);
        proof {
            assert(next.drop_last() =~= all.deep_view().take(i as int));
            assert(next.last() == all[i as int]@);
        }
        let w = to_lowercase(all[i].as_str());
        if !common_word(w.as_str()) {
            out.push(w);
            assert(out.deep_view() =~= before.push(lowercase(all[i as int]@)));
        }
        i += 1;
    }
    assert(all.deep_view().take(all.len() as int) =~= all.deep_view());
    out
}

/// How many of the first `n` keywords of `task` are among `entry`.
pub open spec fn shared_keywords(task: Seq<Seq<char>>, entry: Seq<Seq<char>>, n: nat) -> nat
    decreases n,
{
    if n == 0 || n > task.len() {
        0
    } else {
        shared_keywords(task, entry, (n - 1) as nat) + if entry.contains(task[n - 1]) {
            1nat
        } else {
            0nat
        }
    }
}

/// How far an entry matches a task: how many keywords of the task are among
/// the keywords of the entry's task, and how many keywords the task has. The
/// relevance of the entry is the first over the second.
pub fn relevance_counts(task_description: &str, entry: &MemoryEntry) -> (r: (usize, usize))
    ensures
        r.1 == keywords_of(words_of(task_description@)).len(),
        r.0 == shared_keywords(
            keywords_of(words_of(task_description@)),
            keywords_of(words_of(entry.task@)),
            r.1 as nat,
        ),
        r.0 <= r.1,
{
    let task_keywords = extract_keywords(task_description);
    let entry_keywords = extract_keywords(entry.task.as_str());
    let mut matches: usize = 0;
    let mut i: usize = 0;
    while i < task_keywords.len()
        invariant
            i <= task_keywords.len(),
            matches <= i,
            matches == shared_keywords(
                task_keywords.deep_view(),
                entry_keywords.deep_view(),
                i as nat,
            ),
        decreases task_keywords.len() - i,
    {
        assert(task_keywords.deep_view()[i as int] == task_keywords[i as int]@);
        if contains_string(
            &entry_keywords,
            task_keywords[i].as_str(),
        ) {
            matches += 1;
        }
        i += 1;
    }
    (matches, task_keywords.len())
}

} // verus!
