use anarchy_agent::memory::enhanced::database::{
    generate_id, holds_all_tags, EnhancedDatabase, EnhancedMemoryEntry,
};
use anarchy_agent::text::contains_string;
use anarchy_agent::pairs::find_key;
use anarchy_agent::memory::enhanced::vector_store::MemoryVector;
use anarchy_agent::memory::error::Error;

fn tags(t: &[&str]) -> Vec<String> {
    t.iter().map(|s| s.to_string()).collect()
}

#[test]
fn stored_execution_is_retrieved_once_counted() {
    let mut db = EnhancedDatabase::new(10, 10);
    let id = db.store_execution("t", "c", "r", tags(&["x"]), 70, vec![1, 2], 123456789, 1000);
    assert_eq!(id, "mem_123456789");
    let got = db.query_relevant(&vec![0], 1, 2000);
    assert_eq!(got.len(), 1);
    assert_eq!(got[0].id, "mem_123456789");
    assert_eq!(got[0].task, "t");
    assert_eq!(got[0].code, "c");
    assert_eq!(got[0].result, "r");
    assert_eq!(got[0].tags, vec!["x"]);
    assert_eq!(got[0].importance, 70);
    assert_eq!(got[0].timestamp, 1000);
    assert_eq!(got[0].access_count, 1);
    assert_eq!(got[0].last_access, 2000);
    assert_eq!(db.get_records()[0].access_count, 1);
    let again = db.query_relevant(&vec![0], 1, 3000);
    assert_eq!(again[0].access_count, 2);
}

#[test]
fn store_execution_indexes_task_and_result() {
    let mut db = EnhancedDatabase::new(10, 10);
    db.store_execution("list files", "code", "done", vec![], 50, vec![7, 8, 9], 5, 77);
    let vectors = db.vector_store().get_all_vectors();
    assert_eq!(vectors.len(), 1);
    assert_eq!(vectors[0].id, "mem_5");
    assert_eq!(vectors[0].content, "list files done");
    assert_eq!(vectors[0].vector, vec![7, 8, 9]);
    assert_eq!(vectors[0].timestamp, 77);
    assert_eq!(
        vectors[0].metadata,
        vec![("task".to_string(), "list files".to_string()), ("timestamp".to_string(), "77".to_string())]
    );
    assert_eq!(generate_id(0), "mem_0");
}

#[test]
fn query_returns_records_in_order_of_similarity() {
    let mut db = EnhancedDatabase::new(10, 10);
    db.store_execution("a", "", "", vec![], 1, vec![], 1, 10);
    db.store_execution("b", "", "", vec![], 1, vec![], 2, 20);
    db.store_execution("c", "", "", vec![], 1, vec![], 3, 30);
    let got: Vec<String> = db.query_relevant(&vec![5, 9, 7], 2, 99).into_iter().map(|e| e.task).collect();
    assert_eq!(got, vec!["b", "c"]);
    let counts: Vec<u32> = db.get_records().iter().map(|e| e.access_count).collect();
    assert_eq!(counts, vec![0, 1, 1]);
    assert!(db.query_relevant(&vec![5, 9, 7], 0, 99).is_empty());
}

#[test]
fn index_entries_without_a_record_are_passed_over() {
    let vectors = vec![
        MemoryVector { id: "ghost".to_string(), vector: vec![], content: String::new(), metadata: vec![], timestamp: 1 },
        MemoryVector { id: "real".to_string(), vector: vec![], content: String::new(), metadata: vec![], timestamp: 2 },
    ];
    let records = vec![EnhancedMemoryEntry {
        id: "real".to_string(),
        task: "t".to_string(),
        code: "c".to_string(),
        result: "r".to_string(),
        timestamp: 2,
        tags: vec![],
        importance: 1,
        access_count: u32::MAX,
        last_access: 2,
    }];
    let mut db = EnhancedDatabase::restore(vectors, vec![], records, 10, 10);
    let got = db.query_relevant(&vec![9, 1], 5, 50);
    assert_eq!(got.len(), 1);
    assert_eq!(got[0].id, "real");
    assert_eq!(got[0].access_count, u32::MAX);
    assert_eq!(got[0].last_access, 50);
}

#[test]
fn search_by_tags_wants_every_tag_and_stops_at_the_limit() {
    let mut db = EnhancedDatabase::new(10, 10);
    db.store_execution("a", "", "", tags(&["x", "y"]), 1, vec![], 1, 10);
    db.store_execution("b", "", "", tags(&["x"]), 1, vec![], 2, 20);
    db.store_execution("c", "", "", tags(&["y", "z", "x"]), 1, vec![], 3, 30);
    let got: Vec<String> = db.search_by_tags(&tags(&["x", "y"]), 10, 40).into_iter().map(|e| e.task).collect();
    assert_eq!(got, vec!["a", "c"]);
    let got: Vec<String> = db.search_by_tags(&tags(&["x"]), 2, 41).into_iter().map(|e| e.task).collect();
    assert_eq!(got, vec!["a", "b"]);
    let got: Vec<String> = db.search_by_tags(&tags(&[]), 10, 42).into_iter().map(|e| e.task).collect();
    assert_eq!(got, vec!["a", "b", "c"]);
    assert!(db.search_by_tags(&tags(&["x"]), 0, 43).is_empty());
    assert!(db.search_by_tags(&tags(&["nope"]), 10, 44).is_empty());
    let counts: Vec<u32> = db.get_records().iter().map(|e| e.access_count).collect();
    assert_eq!(counts, vec![3, 2, 2]);
    assert!(holds_all_tags(&tags(&["a", "b"]), &tags(&["b"])));
    assert!(!holds_all_tags(&tags(&["a"]), &tags(&["a", "b"])));
    assert!(contains_string(&tags(&["a", "b"]), "b"));
    assert!(!contains_string(&tags(&[]), "b"));
}

#[test]
fn fact_that_was_set_is_read_back() {
    let mut db = EnhancedDatabase::new(10, 10);
    db.set_key_value("k", "v");
    assert_eq!(db.get_key_value("k").unwrap(), "v");
    db.set_key_value("k", "w");
    assert_eq!(db.get_key_value("k").unwrap(), "w");
    assert_eq!(db.get_facts().len(), 1);
}

#[test]
fn fact_that_was_deleted_is_not_found() {
    let mut db = EnhancedDatabase::new(10, 10);
    db.set_key_value("k", "v");
    db.delete_key_value("k");
    match db.get_key_value("k") {
        Err(Error::KeyNotFoundError(k)) => assert_eq!(k, "k"),
        other => panic!("unexpected: {:?}", other),
    }
    db.delete_key_value("never there");
    assert!(db.get_facts().is_empty());
}

#[test]
fn full_fact_store_forgets_the_fact_used_least_recently() {
    let mut db = EnhancedDatabase::new(10, 2);
    db.set_key_value("a", "1");
    db.set_key_value("b", "2");
    assert_eq!(db.get_key_value("a").unwrap(), "1");
    db.set_key_value("c", "3");
    assert!(db.get_key_value("b").is_err());
    assert_eq!(db.get_key_value("a").unwrap(), "1");
    assert_eq!(db.get_key_value("c").unwrap(), "3");
    assert_eq!(db.get_facts().len(), 2);
    assert_eq!(find_key(db.get_facts(), "c"), Some(1));
    assert_eq!(find_key(db.get_facts(), "b"), None);
}

#[test]
fn fact_store_without_room_keeps_nothing() {
    let mut db = EnhancedDatabase::new(10, 0);
    db.set_key_value("a", "1");
    assert!(db.get_key_value("a").is_err());
}

#[test]
fn restore_replays_what_was_saved() {
    let facts = vec![
        ("a".to_string(), "1".to_string()),
        ("b".to_string(), "2".to_string()),
        ("a".to_string(), "3".to_string()),
    ];
    let mut db = EnhancedDatabase::restore(vec![], facts, vec![], 5, 5);
    assert_eq!(db.get_facts().len(), 2);
    assert_eq!(db.get_key_value("a").unwrap(), "3");
    assert_eq!(db.get_key_value("b").unwrap(), "2");
}

#[test]
fn same_reading_gives_a_fresh_identifier() {
    let mut db = EnhancedDatabase::new(10, 10);
    let first = db.store_execution("first", "", "", vec![], 1, vec![], 9, 10);
    let second = db.store_execution("second", "", "", vec![], 1, vec![], 9, 11);
    let third = db.store_execution("third", "", "", vec![], 1, vec![], 9, 12);
    assert_eq!(first, "mem_9");
    assert_eq!(second, "mem_10");
    assert_eq!(third, "mem_11");
    let tasks: Vec<&str> = db.get_records().iter().map(|e| e.task.as_str()).collect();
    assert_eq!(tasks, vec!["first", "second", "third"]);
    assert_eq!(db.vector_store().len(), 3);
    assert_eq!(db.vector_store().get_vector("mem_9").unwrap().content, "first ");
}

#[test]
fn identifier_is_free_among_records_and_index_entries() {
    let mut db = EnhancedDatabase::new(1, 10);
    assert_eq!(db.store_execution("a", "", "", vec![], 1, vec![], 5, 10), "mem_5");
    assert_eq!(db.store_execution("b", "", "", vec![], 1, vec![], 6, 11), "mem_6");
    assert_eq!(db.vector_store().len(), 1);
    assert_eq!(db.store_execution("c", "", "", vec![], 1, vec![], 5, 12), "mem_7");
    let ids: Vec<&str> = db.get_records().iter().map(|e| e.id.as_str()).collect();
    assert_eq!(ids, vec!["mem_5", "mem_6", "mem_7"]);
    let ghost = vec![MemoryVector {
        id: "mem_3".to_string(),
        vector: vec![],
        content: String::new(),
        metadata: vec![],
        timestamp: 1,
    }];
    let mut db = EnhancedDatabase::restore(ghost, vec![], vec![], 10, 10);
    assert_eq!(db.store_execution("d", "", "", vec![], 1, vec![], 3, 13), "mem_4");
    assert_eq!(db.get_records().len(), 1);
    assert_eq!(db.vector_store().len(), 2);
}

#[test]
fn after_the_greatest_reading_comes_zero() {
    let mut db = EnhancedDatabase::new(10, 10);
    let top = db.store_execution("a", "", "", vec![], 1, vec![], u128::MAX, 10);
    assert_eq!(top, format!("mem_{}", u128::MAX));
    assert_eq!(db.store_execution("b", "", "", vec![], 1, vec![], u128::MAX, 11), "mem_0");
    assert_eq!(db.store_execution("c", "", "", vec![], 1, vec![], u128::MAX, 12), "mem_1");
    assert_eq!(db.get_records().len(), 3);
}

#[test]
fn store_without_index_room_still_keeps_fresh_records() {
    let mut db = EnhancedDatabase::new(0, 10);
    assert_eq!(db.store_execution("a", "", "", vec![], 1, vec![], 1, 10), "mem_1");
    assert_eq!(db.store_execution("b", "", "", vec![], 1, vec![], 1, 11), "mem_2");
    assert_eq!(db.get_records().len(), 2);
    assert_eq!(db.vector_store().len(), 0);
}
