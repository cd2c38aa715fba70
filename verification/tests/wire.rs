//! Unit tests of the wire layer: outcome-to-response mappers, decimal
//! rendering, and JSON bodies, including a cross-check of the JSON
//! encoding against serde_json.

use axum_crud_api::handlers::{
    all_tasks_response, delete_task_response, new_task_response, task_response,
    update_task_response,
};
use axum_crud_api::json::{msg_json, task_json, tasks_json, update_task_json};
use axum_crud_api::models::{Msg, NewTask, StoreError, Task, UpdateTask};
use axum_crud_api::text::{i64_to_string, u64_to_string};

#[test]
fn list_mapper_maps_store_error_to_500_and_empty_array() {
    let resp = all_tasks_response(Err(StoreError::Unavailable));
    assert_eq!(resp.status, 500);
    assert_eq!(tasks_json(&resp.body), "[]");

    let rows = vec![Task { id: 3, task: "x".to_string() }];
    let resp = all_tasks_response(Ok(rows));
    assert_eq!(resp.status, 200);
    assert_eq!(tasks_json(&resp.body), r#"[{"id":3,"task":"x"}]"#);
}

#[test]
fn create_mapper_maps_store_error_to_500_echoing_text_under_id_zero() {
    let payload = NewTask { task: "kept text".to_string() };
    let resp = new_task_response(payload, Err(StoreError::Unavailable));
    assert_eq!(resp.status, 500);
    assert_eq!(resp.location, "/tasks/{id}");
    assert_eq!(task_json(&resp.body), r#"{"id":0,"task":"kept text"}"#);

    let payload = NewTask { task: "t".to_string() };
    let resp = new_task_response(payload, Ok(Task { id: 9, task: "t".to_string() }));
    assert_eq!(resp.status, 201);
    assert_eq!(resp.location, "/tasks/9");
    assert_eq!(task_json(&resp.body), r#"{"id":9,"task":"t"}"#);
}

#[test]
fn get_mapper_maps_store_error_to_404_with_empty_text() {
    let resp = task_response(4711, Err(StoreError::NotFound));
    assert_eq!(resp.status, 404);
    assert_eq!(task_json(&resp.body), r#"{"id":4711,"task":""}"#);

    let resp = task_response(-7, Err(StoreError::Unavailable));
    assert_eq!(resp.status, 404);
    assert_eq!(task_json(&resp.body), r#"{"id":-7,"task":""}"#);
}

#[test]
fn update_mapper_treats_only_one_affected_row_as_success() {
    let body = || UpdateTask { task: "new text".to_string() };
    assert_eq!(update_task_response(body(), Ok(1)).status, 200);
    assert_eq!(update_task_response(body(), Ok(0)).status, 404);
    assert_eq!(update_task_response(body(), Err(StoreError::Unavailable)).status, 404);
    let resp = update_task_response(body(), Ok(1));
    assert_eq!(update_task_json(&resp.body), r#"{"task":"new text"}"#);
}

#[test]
fn delete_mapper_treats_only_one_affected_row_as_success() {
    let resp = delete_task_response(Ok(1));
    assert_eq!(resp.status, 200);
    assert_eq!(msg_json(&resp.body), r#"{"msg":"Task Deleted"}"#);

    let resp = delete_task_response(Ok(0));
    assert_eq!(resp.status, 404);
    assert_eq!(msg_json(&resp.body), r#"{"msg":"task not found"}"#);

    let resp = delete_task_response(Err(StoreError::Unavailable));
    assert_eq!(resp.status, 404);
    assert_eq!(msg_json(&resp.body), r#"{"msg":"task not found"}"#);
}

#[test]
fn decimal_rendering_matches_expected_digits() {
    assert_eq!(u64_to_string(0), "0");
    assert_eq!(u64_to_string(7), "7");
    assert_eq!(u64_to_string(10), "10");
    assert_eq!(u64_to_string(123456789), "123456789");
    assert_eq!(u64_to_string(u64::MAX), "18446744073709551615");
    assert_eq!(i64_to_string(0), "0");
    assert_eq!(i64_to_string(42), "42");
    assert_eq!(i64_to_string(-1), "-1");
    assert_eq!(i64_to_string(i64::MAX), "9223372036854775807");
    assert_eq!(i64_to_string(i64::MIN), "-9223372036854775808");
}

#[test]
fn json_escaping_of_special_characters() {
    let t = Task { id: 1, task: "a\"b\\c\nd\te\r\u{8}\u{c}\u{1}\u{1f}ü€".to_string() };
    assert_eq!(
        task_json(&t),
        "{\"id\":1,\"task\":\"a\\\"b\\\\c\\nd\\te\\r\\b\\f\\u0001\\u001fü€\"}"
    );
}

fn serde_task_object(id: i64, text: &str) -> String {
    let mut m = serde_json::Map::new();
    m.insert("id".to_string(), serde_json::Value::from(id));
    m.insert("task".to_string(), serde_json::Value::String(text.to_string()));
    serde_json::to_string(&serde_json::Value::Object(m)).unwrap()
}

#[test]
fn json_encoding_agrees_with_serde_json() {
    let texts = [
        "",
        "plain",
        "with \"quotes\" and \\backslashes\\",
        "line\nbreaks\r\nand\ttabs",
        "controls \u{0}\u{1}\u{8}\u{b}\u{c}\u{e}\u{1f}",
        "unicode ü € 🦀 中",
        "my first test task",
    ];
    for (i, text) in texts.iter().enumerate() {
        let id = i as i64 - 2;
        let t = Task { id, task: text.to_string() };
        assert_eq!(task_json(&t), serde_task_object(id, text));
    }

    let m: serde_json::Map<String, serde_json::Value> = [(
        "msg".to_string(),
        serde_json::Value::String("Task Deleted".to_string()),
    )]
    .into_iter()
    .collect();
    let expected = serde_json::to_string(&serde_json::Value::Object(m)).unwrap();
    assert_eq!(msg_json(&Msg { msg: "Task Deleted".to_string() }), expected);
}
