use projects_api::project::NewProject;
use projects_api::store::{ProjectStore, StoreError};

fn body(title: &str, description: Option<&str>, github_url: Option<&str>) -> NewProject {
    NewProject {
        title: title.to_string(),
        description: description.map(|s| s.to_string()),
        github_url: github_url.map(|s| s.to_string()),
    }
}

#[test]
fn round_trip_returns_same_fields() {
    let mut store = ProjectStore::new();
    let id = store
        .create(body("Portfolio", None, Some("https://github.com/x")))
        .unwrap();
    assert_eq!(id, 1);
    let p = store.get(id).unwrap();
    assert_eq!(p.id, 1);
    assert_eq!(p.title, "Portfolio");
    assert_eq!(p.description, None);
    assert_eq!(p.github_url, Some("https://github.com/x".to_string()));
}

#[test]
fn ids_are_stable_and_distinct() {
    let mut store = ProjectStore::new();
    let a = store.create(body("a", None, None)).unwrap();
    let b = store.create(body("b", None, None)).unwrap();
    let c = store.create(body("c", None, None)).unwrap();
    assert_eq!((a, b, c), (1, 2, 3));
    assert_eq!(store.get(a).unwrap().title, "a");
    assert_eq!(store.get(b).unwrap().title, "b");
    assert_eq!(store.get(c).unwrap().title, "c");
}

#[test]
fn list_returns_exactly_the_created_set() {
    let mut store = ProjectStore::new();
    let mut created = Vec::new();
    for i in 0..5 {
        created.push(store.create(body(&format!("p{}", i), None, None)).unwrap());
    }
    let listed = store.list();
    assert_eq!(listed.len(), 5);
    let mut listed_ids: Vec<i64> = listed.iter().map(|p| p.id).collect();
    listed_ids.sort();
    created.sort();
    assert_eq!(listed_ids, created);
    // a read-only listing changes nothing: listing again gives the same
    let again = store.list();
    assert_eq!(again.len(), 5);
    for (x, y) in listed.iter().zip(again.iter()) {
        assert_eq!(x.id, y.id);
        assert_eq!(x.title, y.title);
    }
}

#[test]
fn list_keeps_insertion_order() {
    let mut store = ProjectStore::new();
    store.create(body("first", None, None)).unwrap();
    store.create(body("second", None, None)).unwrap();
    let listed = store.list();
    assert_eq!(listed[0].title, "first");
    assert_eq!(listed[1].title, "second");
}

#[test]
fn get_nonexistent_is_not_found() {
    let store = ProjectStore::new();
    assert!(matches!(store.get(1), Err(StoreError::NotFound)));
    let mut store = ProjectStore::new();
    store.create(body("x", None, None)).unwrap();
    assert!(matches!(store.get(99), Err(StoreError::NotFound)));
    assert!(matches!(store.get(-1), Err(StoreError::NotFound)));
}

#[test]
fn omitted_fields_stay_absent() {
    let mut store = ProjectStore::new();
    let id = store.create(body("bare", None, None)).unwrap();
    let p = store.get(id).unwrap();
    assert_eq!(p.description, None);
    assert_eq!(p.github_url, None);
    assert_ne!(p.description, Some(String::new()));
}

#[test]
fn update_fully_replaces_fields() {
    let mut store = ProjectStore::new();
    let id = store
        .create(body("old", Some("kept?"), Some("https://github.com/y")))
        .unwrap();
    // the new body omits description and github_url: they are not preserved
    store.update(id, body("new", None, None)).unwrap();
    let p = store.get(id).unwrap();
    assert_eq!(p.id, id);
    assert_eq!(p.title, "new");
    assert_eq!(p.description, None);
    assert_eq!(p.github_url, None);
}

#[test]
fn update_touches_no_other_record() {
    let mut store = ProjectStore::new();
    let a = store.create(body("a", Some("da"), None)).unwrap();
    let b = store.create(body("b", Some("db"), None)).unwrap();
    store.update(a, body("a2", None, None)).unwrap();
    let pb = store.get(b).unwrap();
    assert_eq!(pb.title, "b");
    assert_eq!(pb.description, Some("db".to_string()));
}

#[test]
fn update_nonexistent_is_not_found() {
    let mut store = ProjectStore::new();
    assert_eq!(store.update(7, body("x", None, None)), Err(StoreError::NotFound));
    assert_eq!(store.list().len(), 0);
}

#[test]
fn delete_is_final_and_idempotent() {
    let mut store = ProjectStore::new();
    let a = store.create(body("a", None, None)).unwrap();
    let b = store.create(body("b", None, None)).unwrap();
    assert_eq!(store.delete(a), Ok(()));
    assert!(matches!(store.get(a), Err(StoreError::NotFound)));
    // the second delete errs without touching anything
    assert_eq!(store.delete(a), Err(StoreError::NotFound));
    let pb = store.get(b).unwrap();
    assert_eq!(pb.title, "b");
    assert_eq!(store.list().len(), 1);
}

#[test]
fn deleted_id_is_not_reused_for_reads() {
    let mut store = ProjectStore::new();
    let a = store.create(body("a", None, None)).unwrap();
    store.delete(a).unwrap();
    let b = store.create(body("b", None, None)).unwrap();
    assert_ne!(a, b);
    assert!(matches!(store.get(a), Err(StoreError::NotFound)));
}

#[test]
fn hostile_title_round_trips_byte_for_byte() {
    let hostile = "Robert'); DROP TABLE projects;--\" \u{0}\n\t`";
    let mut store = ProjectStore::new();
    let id = store.create(body(hostile, Some("it's \"fine\""), None)).unwrap();
    let p = store.get(id).unwrap();
    assert_eq!(p.title, hostile);
    assert_eq!(p.title.as_bytes(), hostile.as_bytes());
    assert_eq!(p.description, Some("it's \"fine\"".to_string()));
    // the other record structure is intact
    assert_eq!(store.list().len(), 1);
}
