use anarchy_agent::memory::enhanced::vector_store::{MemoryVector, VectorStore};
use anarchy_agent::ranking::{rank, rank_top};

fn entry(id: &str, content: &str, timestamp: u64) -> MemoryVector {
    MemoryVector {
        id: id.to_string(),
        vector: vec![1.0f32.to_bits(), 0.5f32.to_bits()],
        content: content.to_string(),
        metadata: vec![("task".to_string(), content.to_string())],
        timestamp,
    }
}

fn ids(store: &VectorStore) -> Vec<String> {
    store.get_all_vectors().iter().map(|v| v.id.clone()).collect()
}

#[test]
fn ranking_is_descending_and_stable() {
    assert_eq!(rank(&vec![5, 9, 5, -1, 9], 5), vec![1, 4, 0, 2, 3]);
    assert_eq!(rank(&vec![], 0), Vec::<usize>::new());
    assert_eq!(rank(&vec![3], 3), vec![0, 1, 2]);
    assert_eq!(rank(&vec![-3], 3), vec![1, 2, 0]);
    assert_eq!(rank_top(&vec![1, 2, 3, 4], 4, 2), vec![3, 2]);
    assert_eq!(rank_top(&vec![1, 2], 2, 10), vec![1, 0]);
    assert_eq!(rank_top(&vec![1, 2], 2, 0), Vec::<usize>::new());
}

#[test]
fn index_never_exceeds_its_capacity() {
    let mut store = VectorStore::new(3);
    for i in 0..10u64 {
        store.add_vector(entry(&format!("id{}", i), "c", 100 + i));
        assert!(store.len() <= 3);
    }
    assert_eq!(ids(&store), vec!["id7", "id8", "id9"]);
}

#[test]
fn index_without_capacity_stays_empty() {
    let mut store = VectorStore::new(0);
    store.add_vector(entry("a", "c", 1));
    assert_eq!(store.len(), 0);
    assert!(store.find_similar(&vec![1], 5).is_empty());
}

#[test]
fn full_index_evicts_the_oldest_entry_and_keeps_the_new_one() {
    let mut store = VectorStore::new(3);
    store.add_vector(entry("a", "c", 30));
    store.add_vector(entry("b", "c", 10));
    store.add_vector(entry("c", "c", 10));
    store.add_vector(entry("d", "c", 5));
    assert_eq!(ids(&store), vec!["a", "c", "d"]);
    store.add_vector(entry("e", "c", 50));
    assert_eq!(ids(&store), vec!["a", "c", "e"]);
}

#[test]
fn adding_a_known_id_replaces_in_place() {
    let mut store = VectorStore::new(2);
    store.add_vector(entry("a", "old", 1));
    store.add_vector(entry("b", "other", 2));
    store.add_vector(entry("a", "new", 9));
    assert_eq!(ids(&store), vec!["a", "b"]);
    assert_eq!(store.get_vector("a").unwrap().content, "new");
    assert_eq!(store.get_vector("a").unwrap().timestamp, 9);
    assert!(store.get_vector("zz").is_none());
}

#[test]
fn adding_twice_changes_nothing() {
    let mut store = VectorStore::new(2);
    store.add_vector(entry("a", "alpha", 1));
    store.add_vector(entry("b", "beta", 2));
    let scores = vec![3, 7];
    let before: Vec<String> = store.find_similar(&scores, 5).iter().map(|v| v.id.clone()).collect();
    store.add_vector(entry("b", "beta", 2));
    assert_eq!(store.len(), 2);
    let after: Vec<String> = store.find_similar(&scores, 5).iter().map(|v| v.id.clone()).collect();
    assert_eq!(before, after);
    assert_eq!(after, vec!["b", "a"]);
}

#[test]
fn find_similar_ranks_by_score_and_respects_the_limit() {
    let mut store = VectorStore::new(10);
    for (i, id) in ["a", "b", "c", "d"].iter().enumerate() {
        store.add_vector(entry(id, "c", i as u64));
    }
    let got: Vec<&str> = store.find_similar(&vec![10, 40, 40, -5], 3).iter().map(|v| v.id.as_str()).collect();
    assert_eq!(got, vec!["b", "c", "a"]);
    let got: Vec<&str> = store.find_similar(&vec![10, 40], 10).iter().map(|v| v.id.as_str()).collect();
    assert_eq!(got, vec!["b", "a", "c", "d"]);
    assert!(store.find_similar(&vec![10, 40, 40, -5], 0).is_empty());
    assert!(VectorStore::new(10).find_similar(&vec![1, 2, 3], 5).is_empty());
}

#[test]
fn search_by_content_ignores_case_and_counts_occurrences() {
    let mut store = VectorStore::new(10);
    store.add_vector(entry("one", "Read the file", 1));
    store.add_vector(entry("two", "FILE file File", 2));
    store.add_vector(entry("three", "nothing here", 3));
    store.add_vector(entry("four", "a file", 4));
    let got: Vec<&str> = store.search_by_content("FiLe", 10).iter().map(|v| v.id.as_str()).collect();
    assert_eq!(got, vec!["two", "one", "four"]);
    let got: Vec<&str> = store.search_by_content("file", 1).iter().map(|v| v.id.as_str()).collect();
    assert_eq!(got, vec!["two"]);
    assert!(store.search_by_content("absent", 10).is_empty());
    assert!(store.search_by_content("file", 0).is_empty());
    let got: Vec<&str> = store.search_by_content("", 10).iter().map(|v| v.id.as_str()).collect();
    assert_eq!(got, vec!["two", "one", "three", "four"]);
}

#[test]
fn remove_and_clear_take_entries_out() {
    let mut store = VectorStore::new(10);
    store.add_vector(entry("a", "c", 1));
    store.add_vector(entry("b", "c", 2));
    assert!(store.remove_vector("a"));
    assert!(!store.remove_vector("a"));
    assert_eq!(ids(&store), vec!["b"]);
    store.clear();
    assert_eq!(store.len(), 0);
}

#[test]
fn with_vectors_adds_one_after_the_other() {
    let store = VectorStore::with_vectors(
        vec![entry("a", "1", 1), entry("b", "2", 2), entry("a", "3", 3), entry("c", "4", 4)],
        2,
    );
    assert_eq!(ids(&store), vec!["a", "c"]);
    assert_eq!(store.get_vector("a").unwrap().content, "3");
    let copy = store.get_vector("c").unwrap().clone();
    assert_eq!(copy.vector, vec![1.0f32.to_bits(), 0.5f32.to_bits()]);
    assert_eq!(copy.metadata, vec![("task".to_string(), "4".to_string())]);
}
