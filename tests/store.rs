use balance_sync::{Entity, EntityStore, KeyError};

#[test]
fn insert_hands_out_sequential_ids() {
    let mut s = EntityStore::new();
    assert_eq!(s.len(), 0);
    assert_eq!(s.insert("alice".to_string(), 0), 1);
    assert_eq!(s.insert("bob".to_string(), 5), 2);
    assert_eq!(s.insert("carol".to_string(), 7), 3);
    assert_eq!(s.len(), 3);
    let e = s.get(2).unwrap();
    assert_eq!(e.key, "bob");
    assert_eq!(e.balance, 5);
    assert_eq!(e.label, "");
}

#[test]
fn get_outside_the_ids_is_none() {
    let mut s = EntityStore::new();
    s.insert("alice".to_string(), 0);
    assert!(s.get(0).is_none());
    assert!(s.get(2).is_none());
    assert!(s.get(1).is_some());
}

#[test]
fn list_is_in_id_order() {
    let mut s = EntityStore::new();
    s.insert("b".to_string(), 2);
    s.insert("a".to_string(), 1);
    let all = s.list();
    assert_eq!(all.len(), 2);
    assert_eq!(all[0], Entity::new("b".to_string(), 2));
    assert_eq!(all[1], Entity::new("a".to_string(), 1));
}

#[test]
fn list_of_empty_store_is_empty() {
    let s = EntityStore::new();
    assert!(s.list().is_empty());
}

#[test]
fn find_by_key_matches_exactly() {
    let mut s = EntityStore::new();
    s.insert("alice".to_string(), 3);
    s.insert("bob".to_string(), 4);
    let (id, e) = s.find_by_key("bob").unwrap();
    assert_eq!(id, 2);
    assert_eq!(e.balance, 4);
    assert!(s.find_by_key("bo").is_none());
    assert!(s.find_by_key("bobby").is_none());
    assert!(s.find_by_key("").is_none());
}

#[test]
fn find_by_key_returns_first_of_equal_keys() {
    let mut s = EntityStore::new();
    s.insert("x".to_string(), 1);
    s.insert("dup".to_string(), 10);
    s.insert("dup".to_string(), 20);
    let (id, e) = s.find_by_key("dup").unwrap();
    assert_eq!(id, 2);
    assert_eq!(e.balance, 10);
}

#[test]
fn update_replaces_present_id() {
    let mut s = EntityStore::new();
    s.insert("alice".to_string(), 0);
    let mut e = s.get(1).unwrap().duplicate();
    e.label = "vip".to_string();
    assert!(s.update(1, e));
    assert_eq!(s.get(1).unwrap().label, "vip");
}

#[test]
fn update_of_absent_id_is_silent_noop() {
    let mut s = EntityStore::new();
    s.insert("alice".to_string(), 0);
    assert!(!s.update(2, Entity::new("ghost".to_string(), 9)));
    assert!(!s.update(0, Entity::new("ghost".to_string(), 9)));
    assert_eq!(s.len(), 1);
    assert_eq!(s.list(), vec![Entity::new("alice".to_string(), 0)]);
}

#[test]
fn with_balance_keeps_other_fields() {
    let mut e = Entity::new("k".to_string(), 1);
    e.label = "note".to_string();
    let f = e.with_balance(99);
    assert_eq!(f.key, "k");
    assert_eq!(f.label, "note");
    assert_eq!(f.balance, 99);
}

#[test]
fn add_principal_stores_lowercase_text() {
    let mut s = EntityStore::new();
    assert_eq!(s.add_principal("RYJL3-TYAAA-AAAAA-AAABA-CAI", 1), Ok(1));
    let e = s.get(1).unwrap();
    assert_eq!(e.key, "ryjl3-tyaaa-aaaaa-aaaba-cai");
    assert_eq!(e.balance, 1);
}

#[test]
fn add_principal_refuses_malformed_text() {
    let mut s = EntityStore::new();
    assert_eq!(s.add_principal("alice", 1), Err(KeyError::MalformedPrincipal));
    assert_eq!(s.add_principal("ryjl3-tyaaa-aaaaa-aaaba-caj", 1), Err(KeyError::MalformedPrincipal));
    assert_eq!(s.len(), 0);
}

#[test]
fn search_folds_case_of_query_and_keys() {
    let mut s = EntityStore::new();
    s.insert("Alice".to_string(), 1);
    s.insert("bob".to_string(), 2);
    s.insert("MALICE".to_string(), 3);
    let hits = s.search("aLi");
    assert_eq!(hits.len(), 2);
    assert_eq!(hits[0].key, "Alice");
    assert_eq!(hits[1].key, "MALICE");
    assert!(s.search("zed").is_empty());
}

#[test]
fn search_with_empty_query_lists_all() {
    let mut s = EntityStore::new();
    s.insert("a".to_string(), 1);
    s.insert("b".to_string(), 2);
    assert_eq!(s.search("").len(), 2);
}
