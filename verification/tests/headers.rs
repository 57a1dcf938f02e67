use kode_bridge::headers::{HeaderList, Headers};

#[test]
fn header_map_insert_replaces_in_place() {
    let mut h = Headers::new();
    h.insert("a", "1");
    h.insert("b", "2");
    h.insert("a", "3");
    assert_eq!(h.len(), 2);
    assert_eq!(h.entry(0), ("a".to_string(), "3".to_string()));
    assert_eq!(h.entry(1), ("b".to_string(), "2".to_string()));
    assert_eq!(h.get("a"), Some("3".to_string()));
    assert_eq!(h.get("c"), None);
    assert!(h.contains("b"));
    assert!(!h.contains("c"));
}

#[test]
fn header_list_insert_replaces_in_place() {
    let mut h = HeaderList::new();
    h.insert("X".to_string(), "1".to_string());
    h.insert("x".to_string(), "2".to_string());
    h.insert("X".to_string(), "3".to_string());
    assert_eq!(h.len(), 2);
    assert_eq!(h.position(&"x".to_string()), Some(1));
    assert_eq!(h.get(&"X".to_string()), Some(&"3".to_string()));
    let (k, v) = h.entry(0);
    assert_eq!((k.as_str(), v.as_str()), ("X", "3"));
}

#[test]
fn a_read_gives_back_the_last_write() {
    let mut h = Headers::new();
    h.insert("x-a", "1");
    h.insert("x-b", "2");
    h.insert("x-a", "new");
    assert_eq!(h.get("x-a"), Some("new".to_string()));
    assert_eq!(h.get("x-b"), Some("2".to_string()));
    let mut l = HeaderList::new();
    l.insert("k".to_string(), "v1".to_string());
    l.insert("k".to_string(), "v2".to_string());
    assert_eq!(l.into_pairs(), vec![("k".to_string(), "v2".to_string())]);
}
