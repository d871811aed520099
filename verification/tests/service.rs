//! Scenario tests for the store and the handler cores.

use todo_service::handlers::{handle_create, handle_list, CreateError};
use todo_service::store::TodoStore;

fn has_subslice(hay: &[u8], needle: &[u8]) -> bool {
    if needle.len() > hay.len() {
        return false;
    }
    let mut i = 0;
    while i + needle.len() <= hay.len() {
        if &hay[i..i + needle.len()] == needle {
            return true;
        }
        i += 1;
    }
    false
}

#[test]
fn creates_then_list_keeps_order_and_flags() {
    let mut store = TodoStore::new();
    let titles = ["first", "second", "third", "fourth"];
    for t in titles.iter() {
        store.append(t.as_bytes().to_vec());
    }
    let listed = store.list();
    assert_eq!(listed.len(), titles.len());
    for (i, t) in titles.iter().enumerate() {
        assert_eq!(listed[i].title, t.as_bytes().to_vec());
        assert!(!listed[i].completed);
        assert!(!listed[i].id.is_empty());
    }
    for i in 0..listed.len() {
        for j in 0..listed.len() {
            if i != j {
                assert_ne!(listed[i].id, listed[j].id);
            }
        }
    }
}

#[test]
fn list_is_idempotent() {
    let mut store = TodoStore::new();
    store.append(b"one".to_vec());
    store.append(b"two".to_vec());
    let first = handle_list(&store);
    let second = handle_list(&store);
    assert_eq!(first, second);
}

#[test]
fn created_id_round_trips_through_list() {
    let mut store = TodoStore::new();
    store.append(b"other".to_vec());
    let created = store.append(b"mine".to_vec());
    let listed = store.list();
    assert_eq!(listed.last().unwrap().id, created.id);
    assert_eq!(listed.last().unwrap().title, created.title);
}

#[test]
fn empty_store_lists_as_empty_array() {
    let store = TodoStore::new();
    assert_eq!(store.len(), 0);
    assert_eq!(handle_list(&store), b"[]".to_vec());
}

#[test]
fn empty_title_is_accepted() {
    let mut store = TodoStore::new();
    let r = handle_create(&mut store, b"{\"title\":\"\"}");
    assert!(r.is_ok());
    let listed = store.list();
    assert_eq!(listed.len(), 1);
    assert!(listed[0].title.is_empty());
}

#[test]
fn missing_title_is_rejected_and_adds_nothing() {
    let mut store = TodoStore::new();
    assert_eq!(handle_create(&mut store, b"{}"), Err(CreateError::BadRequest));
    assert_eq!(store.len(), 0);
    assert!(handle_create(&mut store, b"{\"title\":\"kept\"}").is_ok());
    assert_eq!(handle_create(&mut store, b"{\"titel\":\"x\"}"), Err(CreateError::BadRequest));
    assert_eq!(store.len(), 1);
}

#[test]
fn wrong_typed_title_is_rejected() {
    let mut store = TodoStore::new();
    assert!(handle_create(&mut store, b"{\"title\":5}").is_err());
    assert!(handle_create(&mut store, b"{\"title\":null}").is_err());
    assert!(handle_create(&mut store, b"{\"title\":[\"x\"]}").is_err());
    assert_eq!(store.len(), 0);
}

#[test]
fn many_creates_yield_exactly_that_many_distinct_entries() {
    let mut store = TodoStore::new();
    let n = 50;
    for i in 0..n {
        store.append(format!("task {}", i).into_bytes());
    }
    let listed = store.list();
    assert_eq!(listed.len(), n);
    for i in 0..n {
        assert_eq!(listed[i].title, format!("task {}", i).into_bytes());
        for j in 0..n {
            if i != j {
                assert_ne!(listed[i].id, listed[j].id);
            }
        }
    }
}

#[test]
fn create_then_list_end_to_end_bodies() {
    let mut store = TodoStore::new();
    let created = handle_create(&mut store, b"{\"title\":\"buy milk\"}").unwrap();
    assert!(has_subslice(&created, b"\"title\":\"buy milk\",\"completed\":false"));
    assert!(created.starts_with(b"{\"id\":\""));
    let mut expected = b"[".to_vec();
    expected.extend_from_slice(&created);
    expected.push(b']');
    assert_eq!(handle_list(&store), expected);
}
