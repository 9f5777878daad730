use projects_api::api::{
    create_project, delete_project, error_status, get_project, get_projects, reply_bad_request,
    respond_create, respond_delete, respond_get, respond_list, respond_update, Body, Reply,
};
use projects_api::project::{NewProject, Project};
use projects_api::store::{ProjectStore, StoreError};

fn body(title: &str, description: Option<&str>, github_url: Option<&str>) -> NewProject {
    NewProject {
        title: title.to_string(),
        description: description.map(|s| s.to_string()),
        github_url: github_url.map(|s| s.to_string()),
    }
}

fn record_of(rep: Reply) -> Project {
    match rep.body {
        Body::Record(p) => p,
        _ => panic!("expected a single record body"),
    }
}

#[test]
fn example_scenario() {
    // POST {"title":"Portfolio","description":null,"github_url":"https://github.com/x"}
    let mut store = ProjectStore::new();
    let rep = create_project(
        &mut store,
        body("Portfolio", None, Some("https://github.com/x")),
    );
    assert_eq!(rep.status, 201);
    let created = record_of(rep);
    assert_eq!(created.id, 1);

    // GET /projects/1
    let rep = get_project(&store, 1);
    assert_eq!(rep.status, 200);
    let p = record_of(rep);
    assert_eq!(p.id, 1);
    assert_eq!(p.title, "Portfolio");
    assert_eq!(p.description, None);
    assert_eq!(p.github_url, Some("https://github.com/x".to_string()));

    // DELETE /projects/1
    let rep = delete_project(&mut store, 1);
    assert_eq!(rep.status, 200);

    // GET /projects/1
    let rep = get_project(&store, 1);
    assert_eq!(rep.status, 404);
}

#[test]
fn listing_returns_every_record() {
    let mut store = ProjectStore::new();
    create_project(&mut store, body("a", None, None));
    create_project(&mut store, body("b", Some("d"), None));
    let rep = get_projects(&store);
    assert_eq!(rep.status, 200);
    match rep.body {
        Body::Records(ps) => {
            assert_eq!(ps.len(), 2);
            assert_eq!(ps[0].title, "a");
            assert_eq!(ps[1].title, "b");
        }
        _ => panic!("expected the full listing"),
    }
}

#[test]
fn get_missing_id_is_404() {
    let store = ProjectStore::new();
    let rep = get_project(&store, 5);
    assert_eq!(rep.status, 404);
    assert!(matches!(rep.body, Body::Text(_)));
}

#[test]
fn update_present_and_missing() {
    let mut store = ProjectStore::new();
    let created = record_of(create_project(&mut store, body("t", None, None)));
    let rep = update_project_helper(&mut store, created.id);
    assert_eq!(rep.status, 200);
    let p = record_of(get_project(&store, created.id));
    assert_eq!(p.title, "t2");
    // an id nothing carries: 404, nothing changed
    let rep = projects_api::api::update_project(&mut store, 999, body("x", None, None));
    assert_eq!(rep.status, 404);
    assert_eq!(record_of(get_project(&store, created.id)).title, "t2");
}

fn update_project_helper(store: &mut ProjectStore, id: i64) -> Reply {
    projects_api::api::update_project(store, id, body("t2", None, None))
}

#[test]
fn delete_missing_id_is_404() {
    let mut store = ProjectStore::new();
    let rep = delete_project(&mut store, 1);
    assert_eq!(rep.status, 404);
}

#[test]
fn error_status_mapping() {
    assert_eq!(error_status(&StoreError::NotFound), 404);
    assert_eq!(error_status(&StoreError::ConstraintViolation), 500);
    assert_eq!(error_status(&StoreError::StoreUnavailable), 500);
}

#[test]
fn bad_request_reply() {
    let rep = reply_bad_request();
    assert_eq!(rep.status, 400);
    assert!(matches!(rep.body, Body::Text(_)));
}

#[test]
fn respond_functions_map_adapter_outcomes() {
    let rep = respond_list(Ok(Vec::new()));
    assert_eq!(rep.status, 200);
    let rep = respond_list(Err(StoreError::StoreUnavailable));
    assert_eq!(rep.status, 500);

    let p = Project { id: 3, title: "x".to_string(), description: None, github_url: None };
    let rep = respond_get(Ok(p));
    assert_eq!(rep.status, 200);
    let rep = respond_get(Err(StoreError::NotFound));
    assert_eq!(rep.status, 404);
    let rep = respond_get(Err(StoreError::StoreUnavailable));
    assert_eq!(rep.status, 500);

    let p = Project { id: 4, title: "y".to_string(), description: None, github_url: None };
    let rep = respond_create(Ok(p));
    assert_eq!(rep.status, 201);
    let rep = respond_create(Err(StoreError::ConstraintViolation));
    assert_eq!(rep.status, 500);

    let rep = respond_update(Ok(()));
    assert_eq!(rep.status, 200);
    let rep = respond_update(Err(StoreError::NotFound));
    assert_eq!(rep.status, 404);
    let rep = respond_update(Err(StoreError::StoreUnavailable));
    assert_eq!(rep.status, 500);

    let rep = respond_delete(Ok(()));
    assert_eq!(rep.status, 200);
    let rep = respond_delete(Err(StoreError::NotFound));
    assert_eq!(rep.status, 404);
    let rep = respond_delete(Err(StoreError::ConstraintViolation));
    assert_eq!(rep.status, 500);
}

#[test]
fn created_body_carries_the_submitted_fields() {
    let mut store = ProjectStore::new();
    let rep = create_project(&mut store, body("it's \"odd\"", Some("d"), None));
    assert_eq!(rep.status, 201);
    let p = record_of(rep);
    assert_eq!(p.title, "it's \"odd\"");
    assert_eq!(p.description, Some("d".to_string()));
    assert_eq!(p.github_url, None);
}
