use know::qdrant::{chunks_from_hits, deleted_message, DocumentChunk, SearchPayload, Store};

fn chunk(id: &str, content: &str, source: &str) -> DocumentChunk {
    DocumentChunk { id: id.to_string(), content: content.to_string(), source: source.to_string() }
}

fn two_chunk_store() -> Store {
    let mut store = Store::new();
    let name = "know".to_string();
    store.ensure_collection(&name, 3);
    let chunks = vec![chunk("id-a", "Alpha", "a.txt"), chunk("id-b", "Beta", "b.txt")];
    let dims = vec![3, 3];
    store.upsert_batch(&name, &chunks, &dims);
    store
}

#[test]
fn upsert_then_find_returns_each_chunk() {
    let store = two_chunk_store();
    assert_eq!(store.collections.len(), 1);
    let c = &store.collections[0];
    assert_eq!(c.points_count(), 2);
    let found = c.find_point(&"id-a".to_string()).expect("stored point");
    assert_eq!(found.0, "Alpha");
    assert_eq!(found.1, "a.txt");
    let found = c.find_point(&"id-b".to_string()).expect("stored point");
    assert_eq!(found.0, "Beta");
    assert_eq!(found.1, "b.txt");
    assert!(c.find_point(&"id-c".to_string()).is_none());
}

#[test]
fn reupserting_same_ids_overwrites() {
    let mut store = two_chunk_store();
    let name = "know".to_string();
    let chunks = vec![chunk("id-a", "Alpha revised", "a.txt")];
    let dims = vec![3];
    store.upsert_batch(&name, &chunks, &dims);
    let c = &store.collections[0];
    assert_eq!(c.points_count(), 2);
    let found = c.find_point(&"id-a".to_string()).expect("stored point");
    assert_eq!(found.0, "Alpha revised");
}

#[test]
fn reingesting_identical_batch_is_idempotent() {
    let mut store = two_chunk_store();
    let name = "know".to_string();
    let chunks = vec![chunk("id-a", "Alpha", "a.txt"), chunk("id-b", "Beta", "b.txt")];
    let dims = vec![3, 3];
    store.upsert_batch(&name, &chunks, &dims);
    let c = &store.collections[0];
    assert_eq!(c.points_count(), 2);
    assert_eq!(c.find_point(&"id-a".to_string()).expect("stored").0, "Alpha");
}

#[test]
fn ensure_collection_is_idempotent() {
    let mut store = Store::new();
    let name = "know".to_string();
    store.ensure_collection(&name, 4);
    store.ensure_collection(&name, 4);
    assert_eq!(store.collections.len(), 1);
    assert_eq!(store.collections[0].dim, 4);
    assert_eq!(store.collections[0].points_count(), 0);
}

#[test]
fn collection_info_reports_counts_and_absence() {
    let store = two_chunk_store();
    let info = store.collection_info(&"know".to_string()).expect("collection exists");
    assert_eq!(info.points_count, 2);
    assert_eq!(info.indexed_vectors_count, 2);
    assert!(store.collection_info(&"other".to_string()).is_none());
}

#[test]
fn delete_collection_removes_it() {
    let mut store = two_chunk_store();
    let name = "know".to_string();
    store.delete_collection(&name);
    assert!(store.collection_info(&name).is_none());
    assert_eq!(store.collections.len(), 0);
    store.delete_collection(&name);
    assert_eq!(store.collections.len(), 0);
}

#[test]
fn other_collections_are_untouched() {
    let mut store = two_chunk_store();
    let other = "scratch".to_string();
    store.ensure_collection(&other, 7);
    let chunks = vec![chunk("id-x", "Xray", "x.txt")];
    let dims = vec![7];
    store.upsert_batch(&other, &chunks, &dims);
    assert_eq!(store.collection_info(&"know".to_string()).expect("kept").points_count, 2);
    assert_eq!(store.collection_info(&other).expect("new").points_count, 1);
}

#[test]
fn hits_without_payload_are_dropped_in_order() {
    let hits = vec![
        Some(SearchPayload { content: "Alpha".to_string(), source: "a.txt".to_string() }),
        None,
        Some(SearchPayload { content: "Beta".to_string(), source: "b.txt".to_string() }),
    ];
    let chunks = chunks_from_hits(hits);
    assert_eq!(chunks.len(), 2);
    assert_eq!(chunks[0].content, "Alpha");
    assert_eq!(chunks[0].source, "a.txt");
    assert_eq!(chunks[0].id, "");
    assert_eq!(chunks[1].content, "Beta");
}

#[test]
fn deleted_report_names_the_collection() {
    assert_eq!(deleted_message(&"know".to_string()), "Collection 'know' deleted.");
}
