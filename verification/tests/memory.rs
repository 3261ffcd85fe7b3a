use anarchy_agent::memory::config::Config;
use anarchy_agent::memory::context::{extract_keywords, format_context, relevance_counts};
use anarchy_agent::memory::enhanced::database::EnhancedMemoryEntry;
use anarchy_agent::memory::enhanced::memory::{format_entries, format_found, EnhancedMemory};
use anarchy_agent::memory::error::Error;
use anarchy_agent::memory::storage::MemoryEntry;
use anarchy_agent::memory::Memory;

fn plain(task: &str, code: &str, result: &str) -> MemoryEntry {
    MemoryEntry { id: "i".to_string(), task: task.to_string(), code: code.to_string(), result: result.to_string(), timestamp: 1 }
}

#[test]
fn context_of_nothing_says_so() {
    assert_eq!(format_context(&[]), "No relevant previous executions found.");
}

#[test]
fn context_numbers_the_executions() {
    assert_eq!(
        format_context(&[plain("t1", "c1", "r1"), plain("t2", "c2", "r2")]),
        "Previous relevant executions:\n\nExecution 1:\n- Task: t1\n- Code:\n```\nc1\n```\n- Result: r1\n\nExecution 2:\n- Task: t2\n- Code:\n```\nc2\n```\n- Result: r2\n\n"
    );
}

#[test]
fn keywords_are_lowercased_words_without_the_common_ones() {
    assert_eq!(extract_keywords("List THE files in a Folder"), vec!["list", "files", "folder"]);
    assert!(extract_keywords("  the AND  is ").is_empty());
    assert!(extract_keywords("").is_empty());
    assert_eq!(extract_keywords("ÄPFEL"), vec!["äpfel"]);
}

#[test]
fn relevance_counts_shared_keywords() {
    assert_eq!(relevance_counts("read the big file", &plain("Read a FILE now", "", "")), (2, 3));
    assert_eq!(relevance_counts("the a", &plain("x", "", "")), (0, 0));
    assert_eq!(relevance_counts("x x y", &plain("x", "", "")), (2, 3));
}

#[test]
fn memory_round_trip_through_the_service() {
    let mut memory = Memory::new();
    memory.store_result("list files", "code()", "ok", vec![1, 2, 3], 42, 100);
    let context = memory.retrieve_context(&vec![0], 200);
    assert_eq!(context, "Task: list files\nCode:\ncode()\nResult:\nok\nTags: execution\nImportance: 50\n\n");
    let store = memory.enhanced().unwrap();
    assert_eq!(store.database().get_records()[0].access_count, 1);
    assert_eq!(store.database().get_records()[0].last_access, 200);
}

#[test]
fn context_holds_as_many_records_as_the_configuration_allows() {
    let mut memory = Memory::with_config(Config { max_context_entries: 2, ..Config::default() });
    for i in 0..4u64 {
        memory.store_result(&format!("t{}", i), "c", "r", vec![], i as u128, i);
    }
    let context = memory.retrieve_context(&vec![1, 4, 3, 2], 9);
    assert_eq!(
        context,
        "Task: t1\nCode:\nc\nResult:\nr\nTags: execution\nImportance: 50\n\nTask: t2\nCode:\nc\nResult:\nr\nTags: execution\nImportance: 50\n\n"
    );
}

#[test]
fn facts_through_the_service() {
    let mut memory = Memory::new();
    memory.set_memory("k", "v");
    assert_eq!(memory.get_memory("k").unwrap(), "v");
    memory.forget_key("k");
    assert!(matches!(memory.get_memory("k"), Err(Error::KeyNotFoundError(k)) if k == "k"));
}

#[test]
fn search_by_tags_through_the_service() {
    let mut memory = Memory::new();
    memory.store_result("t", "c", "r", vec![], 1, 5);
    let found = memory.search_by_tags(&vec!["execution".to_string()], 6).unwrap();
    assert_eq!(found, "Task: t\nCode:\nc\nResult:\nr\nTags: execution\nImportance: 50\nAccess Count: 1\n\n");
    assert_eq!(memory.search_by_tags(&vec!["other".to_string()], 7).unwrap(), "");
}

#[test]
fn memory_without_a_store_remembers_nothing() {
    let mut memory = Memory::with_config(Config { use_enhanced_memory: false, ..Config::default() });
    memory.store_result("t", "c", "r", vec![], 1, 5);
    assert_eq!(memory.retrieve_context(&vec![], 6), "No relevant previous executions found.");
    memory.set_memory("k", "v");
    assert!(matches!(memory.get_memory("k"), Err(Error::KeyNotFoundError(_))));
    memory.forget_key("k");
    match memory.search_by_tags(&vec![], 7) {
        Err(Error::UnsupportedOperationError(m)) => assert_eq!(m, "Tag search requires enhanced memory"),
        other => panic!("unexpected: {:?}", other),
    }
    assert!(memory.enhanced().is_none());
}

#[test]
fn entries_are_formatted_with_tags_and_counts() {
    let e = EnhancedMemoryEntry {
        id: "i".to_string(),
        task: "t".to_string(),
        code: "c".to_string(),
        result: "r".to_string(),
        timestamp: 1,
        tags: vec!["a".to_string(), "b".to_string()],
        importance: 100,
        access_count: 12,
        last_access: 2,
    };
    assert_eq!(format_entries(&vec![e.clone()]), "Task: t\nCode:\nc\nResult:\nr\nTags: a, b\nImportance: 100\n\n");
    assert_eq!(
        format_found(&vec![e.clone(), e]),
        "Task: t\nCode:\nc\nResult:\nr\nTags: a, b\nImportance: 100\nAccess Count: 12\n\nTask: t\nCode:\nc\nResult:\nr\nTags: a, b\nImportance: 100\nAccess Count: 12\n\n"
    );
    assert_eq!(format_entries(&vec![]), "");
}

#[test]
fn semantic_memory_can_be_restored() {
    let config = Config::default();
    let store = EnhancedMemory::restore(&config, vec![], vec![("k".to_string(), "v".to_string())], vec![]);
    let mut memory = Memory::with_store(config.clone(), store);
    assert_eq!(memory.get_memory("k").unwrap(), "v");
    assert_eq!(config.max_vectors, 1000);
    assert_eq!(config.max_kv_cache, 500);
    assert_eq!(config.max_entries, 10);
    assert_eq!(config.max_search_results, 10);
}

#[test]
fn memory_error_messages() {
    assert_eq!(Error::KeyNotFoundError("k".to_string()).message(), "Key not found: k");
    assert_eq!(Error::UnsupportedOperationError("x".to_string()).message(), "Unsupported operation: x");
    assert_eq!(Error::SerializationError("x".to_string()).message(), "Serialization error: x");
}

#[test]
fn results_stored_at_one_reading_are_all_kept() {
    let mut memory = Memory::new();
    memory.store_result("one", "c", "r", vec![], 7, 1);
    memory.store_result("two", "c", "r", vec![], 7, 2);
    let store = memory.enhanced().unwrap();
    let ids: Vec<&str> = store.database().get_records().iter().map(|e| e.id.as_str()).collect();
    assert_eq!(ids, vec!["mem_7", "mem_8"]);
    assert_eq!(store.database().vector_store().len(), 2);
}
