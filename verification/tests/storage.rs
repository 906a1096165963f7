use ykcode::document::Document;
use ykcode::store::{MemoryStore, StorageError};

/// The JSON text of the fields of a document these tests read back.
fn doc_json(doc: &Document) -> String {
    let mut m = serde_json::Map::new();
    m.insert("id".to_string(), serde_json::Value::String(doc.id_string()));
    m.insert("name".to_string(), serde_json::Value::String(doc.name.clone()));
    serde_json::Value::Object(m).to_string()
}

fn field(json: &str, key: &str) -> String {
    let v: serde_json::Value = serde_json::from_str(json).unwrap();
    v.get(key).and_then(|x| x.as_str()).unwrap().to_string()
}

#[test]
fn memory_store_save_and_load() {
    let mut store = MemoryStore::default();
    let doc = Document::new("Test Doc");
    let id = doc.id_string();

    store.save(id.clone(), doc_json(&doc)).unwrap();
    let loaded = store.load(&id).unwrap();
    assert_eq!(field(&loaded, "name"), "Test Doc");
    assert_eq!(field(&loaded, "id"), doc.id_string());
}

#[test]
fn memory_store_list_all() {
    let mut store = MemoryStore::default();
    let a = Document::new("A");
    let b = Document::new("B");
    store.save(a.id_string(), doc_json(&a)).unwrap();
    store.save(b.id_string(), doc_json(&b)).unwrap();
    let ids = store.list().unwrap();
    assert_eq!(ids.len(), 2);
}

#[test]
fn memory_store_delete_removes_entry() {
    let mut store = MemoryStore::default();
    let doc = Document::new("Temp");
    let id = doc.id_string();
    store.save(id.clone(), doc_json(&doc)).unwrap();
    store.delete(&id).unwrap();
    assert!(matches!(store.load(&id), Err(StorageError::NotFound(_))));
}

#[test]
fn memory_store_not_found_error() {
    let store = MemoryStore::default();
    assert!(matches!(store.load("nope"), Err(StorageError::NotFound(_))));
}

#[test]
fn not_found_names_the_id() {
    let store = MemoryStore::new();
    match store.load("missing-id") {
        Err(StorageError::NotFound(m)) => assert_eq!(m, "missing-id"),
        other => panic!("unexpected {:?}", other),
    }
}

#[test]
fn save_replaces_and_keeps_others() {
    let mut store = MemoryStore::new();
    store.save("x".into(), "1".into()).unwrap();
    store.save("y".into(), "2".into()).unwrap();
    store.save("x".into(), "3".into()).unwrap();
    assert_eq!(store.load("x").unwrap(), "3");
    assert_eq!(store.load("y").unwrap(), "2");
    let mut ids = store.list().unwrap();
    ids.sort();
    assert_eq!(ids, vec!["x".to_string(), "y".to_string()]);
}

#[test]
fn delete_keeps_others_and_missing_delete_is_ok() {
    let mut store = MemoryStore::new();
    store.save("x".into(), "1".into()).unwrap();
    store.save("y".into(), "2".into()).unwrap();
    store.delete("x").unwrap();
    store.delete("never").unwrap();
    assert!(matches!(store.load("x"), Err(StorageError::NotFound(_))));
    assert_eq!(store.load("y").unwrap(), "2");
    assert_eq!(store.list().unwrap(), vec!["y".to_string()]);
}

#[test]
fn document_id_text_is_uuid() {
    let doc = Document::new("T");
    assert_eq!(doc.id_string(), uuid::Uuid::from_u128(doc.id).to_string());
    assert_eq!(uuid::Uuid::from_u128(doc.id).get_version_num(), 4);
}
