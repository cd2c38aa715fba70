//! End-to-end scenarios against the table model: each test drives the
//! endpoint handlers and checks the status codes and the exact JSON wire
//! bodies.

use axum_crud_api::handlers::{all_tasks, delete_task, new_task, task, update_task};
use axum_crud_api::json::{msg_json, task_json, tasks_json, update_task_json};
use axum_crud_api::models::{NewTask, UpdateTask};
use axum_crud_api::store::TaskStore;

fn create(store: &mut TaskStore, text: &str) -> axum_crud_api::handlers::CreateResponse {
    new_task(store, NewTask { task: text.to_string() })
}

#[test]
fn test_create_one_task_and_list_tasks_e2e() {
    let mut store = TaskStore::new();

    let resp = create(&mut store, "my first test task");
    assert_eq!(resp.status, 201);
    assert_eq!(task_json(&resp.body), r#"{"id":1,"task":"my first test task"}"#);

    let resp = all_tasks(&store);
    assert_eq!(resp.status, 200);
    assert_eq!(tasks_json(&resp.body), r#"[{"id":1,"task":"my first test task"}]"#);
}

#[test]
fn test_create_one_task_and_get_task_e2e() {
    let mut store = TaskStore::new();

    let resp = create(&mut store, "my first test task");
    assert_eq!(resp.status, 201);
    assert_eq!(task_json(&resp.body), r#"{"id":1,"task":"my first test task"}"#);

    let resp = task(&store, 1);
    assert_eq!(resp.status, 200);
    assert_eq!(task_json(&resp.body), r#"{"id":1,"task":"my first test task"}"#);
}

#[test]
fn test_create_two_tasks_and_list_tasks_e2e() {
    let mut store = TaskStore::new();

    let resp = create(&mut store, "my first test task");
    assert_eq!(resp.status, 201);
    assert_eq!(task_json(&resp.body), r#"{"id":1,"task":"my first test task"}"#);

    let resp = create(&mut store, "my second test task");
    assert_eq!(resp.status, 201);
    assert_eq!(task_json(&resp.body), r#"{"id":2,"task":"my second test task"}"#);

    let resp = all_tasks(&store);
    assert_eq!(resp.status, 200);
    assert_eq!(
        tasks_json(&resp.body),
        r#"[{"id":1,"task":"my first test task"},{"id":2,"task":"my second test task"}]"#
    );
}

#[test]
fn test_list_empty_tasks_e2e() {
    let store = TaskStore::new();
    let resp = all_tasks(&store);
    assert_eq!(resp.status, 200);
    assert_eq!(tasks_json(&resp.body), r#"[]"#);
}

#[test]
fn test_create_and_delete_one_task_and_list_tasks_e2e() {
    let mut store = TaskStore::new();

    let resp = create(&mut store, "my first test task");
    assert_eq!(resp.status, 201);
    assert_eq!(task_json(&resp.body), r#"{"id":1,"task":"my first test task"}"#);

    let resp = delete_task(&mut store, 1);
    assert_eq!(resp.status, 200);

    let resp = all_tasks(&store);
    assert_eq!(resp.status, 200);
    assert_eq!(tasks_json(&resp.body), r#"[]"#);
}

#[test]
fn test_create_and_update_one_task_and_list_tasks_e2e() {
    let mut store = TaskStore::new();

    let resp = create(&mut store, "my first test task");
    assert_eq!(resp.status, 201);
    assert_eq!(task_json(&resp.body), r#"{"id":1,"task":"my first test task"}"#);

    let resp = update_task(
        &mut store,
        1,
        UpdateTask { task: "my first updated test task".to_string() },
    );
    assert_eq!(resp.status, 200);
    assert_eq!(update_task_json(&resp.body), r#"{"task":"my first updated test task"}"#);

    let resp = all_tasks(&store);
    assert_eq!(resp.status, 200);
    assert_eq!(tasks_json(&resp.body), r#"[{"id":1,"task":"my first updated test task"}]"#);
}

#[test]
fn test_get_wrong_task_e2e() {
    let store = TaskStore::new();
    let resp = task(&store, 4711);
    assert_eq!(resp.status, 404);
}

#[test]
fn test_delete_wrong_task_e2e() {
    let mut store = TaskStore::new();
    let resp = delete_task(&mut store, 4711);
    assert_eq!(resp.status, 404);
}

#[test]
fn test_update_wrong_task_e2e() {
    let mut store = TaskStore::new();
    let resp = update_task(
        &mut store,
        4711,
        UpdateTask { task: "my first updated test task".to_string() },
    );
    assert_eq!(resp.status, 404);
}

#[test]
fn get_second_of_two_tasks_returns_only_its_body() {
    let mut store = TaskStore::new();
    create(&mut store, "my first test task");
    let second = create(&mut store, "my second test task");
    assert_eq!(second.status, 201);

    let resp = task(&store, second.body.id);
    assert_eq!(resp.status, 200);
    assert_eq!(task_json(&resp.body), r#"{"id":2,"task":"my second test task"}"#);
}

#[test]
fn create_reports_location_of_new_resource() {
    let mut store = TaskStore::new();
    let resp = create(&mut store, "first");
    assert_eq!(resp.location, "/tasks/1");
    let resp = create(&mut store, "second");
    assert_eq!(resp.location, "/tasks/2");
}

#[test]
fn identifiers_grow_and_are_never_reused_after_deletion() {
    let mut store = TaskStore::new();
    let first = create(&mut store, "a");
    assert_eq!(first.body.id, 1);
    let second = create(&mut store, "b");
    assert_eq!(second.body.id, 2);

    let resp = delete_task(&mut store, 2);
    assert_eq!(resp.status, 200);

    let third = create(&mut store, "c");
    assert_eq!(third.body.id, 3);
    assert!(third.body.id > first.body.id);
    assert!(third.body.id > second.body.id);
}

#[test]
fn list_after_three_inserts_keeps_insertion_order() {
    let mut store = TaskStore::new();
    create(&mut store, "one");
    create(&mut store, "two");
    create(&mut store, "three");

    let resp = all_tasks(&store);
    assert_eq!(resp.status, 200);
    assert_eq!(resp.body.len(), 3);
    assert_eq!(resp.body[0].task, "one");
    assert_eq!(resp.body[1].task, "two");
    assert_eq!(resp.body[2].task, "three");
    assert_eq!(
        tasks_json(&resp.body),
        r#"[{"id":1,"task":"one"},{"id":2,"task":"two"},{"id":3,"task":"three"}]"#
    );
}

#[test]
fn update_of_absent_id_creates_no_row() {
    let mut store = TaskStore::new();
    create(&mut store, "kept");

    let resp = update_task(&mut store, 17, UpdateTask { task: "ignored".to_string() });
    assert_eq!(resp.status, 404);

    let resp = all_tasks(&store);
    assert_eq!(tasks_json(&resp.body), r#"[{"id":1,"task":"kept"}]"#);
}

#[test]
fn delete_of_absent_id_leaves_list_unaffected() {
    let mut store = TaskStore::new();
    create(&mut store, "kept");

    let resp = delete_task(&mut store, 17);
    assert_eq!(resp.status, 404);
    assert_eq!(msg_json(&resp.body), r#"{"msg":"task not found"}"#);

    let resp = all_tasks(&store);
    assert_eq!(tasks_json(&resp.body), r#"[{"id":1,"task":"kept"}]"#);
}

#[test]
fn round_trip_of_one_task() {
    let mut store = TaskStore::new();

    let created = create(&mut store, "T");
    assert_eq!(created.status, 201);
    let id = created.body.id;

    let resp = task(&store, id);
    assert_eq!(resp.status, 200);
    assert_eq!(resp.body.id, id);
    assert_eq!(resp.body.task, "T");

    let resp = update_task(&mut store, id, UpdateTask { task: "T2".to_string() });
    assert_eq!(resp.status, 200);

    let resp = task(&store, id);
    assert_eq!(resp.status, 200);
    assert_eq!(resp.body.id, id);
    assert_eq!(resp.body.task, "T2");

    let resp = delete_task(&mut store, id);
    assert_eq!(resp.status, 200);
    assert_eq!(msg_json(&resp.body), r#"{"msg":"Task Deleted"}"#);

    let resp = task(&store, id);
    assert_eq!(resp.status, 404);

    let resp = all_tasks(&store);
    assert_eq!(tasks_json(&resp.body), r#"[]"#);
}
