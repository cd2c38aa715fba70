//! Request handlers: the mapping from each repository outcome to an HTTP
//! status code and response body.
//!
//! Each endpoint has two layers. A response mapper takes the outcome of
//! the store round trip as a plain value and builds the status and body;
//! the unverified edge that talks to a real store calls these directly.
//! An endpoint handler runs the same request against the table model,
//! giving the full request-to-response contract.

use vstd::prelude::*;

use crate::models::{Msg, NewTask, StoreError, Task, UpdateTask};
use crate::store::{
    assigned_task, has_id, spec_deleted, spec_get, spec_inserted, spec_updated, views_of,
    TaskStore,
};
use crate::text::spec_int_str;

verus! {

/// The greeting served beside the task resource.
pub fn root() -> (r: &'static str)
    ensures
        r@ == "Hello, World"@,
{
    "Hello, World"
}

/// Response of the list endpoint: a status and an array of tasks.
pub struct ListResponse {
    pub status: u16,
    pub body: Vec<Task>,
}

/// Response of the create endpoint: a status, the location of the new
/// resource, and the persisted task (or the echo of the rejected one).
pub struct CreateResponse {
    pub status: u16,
    pub location: String,
    pub body: Task,
}

/// Response of the single-task endpoint: a status and one task.
pub struct GetResponse {
    pub status: u16,
    pub body: Task,
}

/// Response of the update endpoint: a status and the submitted payload.
pub struct UpdateResponse {
    pub status: u16,
    pub body: UpdateTask,
}

/// Response of the delete endpoint: a status and a message body.
pub struct DeleteResponse {
    pub status: u16,
    pub body: Msg,
}

/// Map the outcome of select-all: the rows with 200, or 500 with an empty
/// array on a store error.
pub fn all_tasks_response(outcome: Result<Vec<Task>, StoreError>) -> (r: ListResponse)
    ensures
        outcome matches Ok(tasks) ==> r.status == 200 && r.body == tasks,
        outcome is Err ==> r.status == 500 && r.body@.len() == 0,
{
    match outcome {
        Ok(tasks) => ListResponse { status: 200, body: tasks },
        Err(_) => ListResponse { status: 500, body: Vec::new() },
    }
}

/// Map the outcome of an insert: 201 with the persisted row and its
/// location, or 500 echoing the submitted text under identifier 0.
pub fn new_task_response(payload: NewTask, outcome: Result<Task, StoreError>) -> (r:
    CreateResponse)
    ensures
        outcome matches Ok(t) ==> {
            &&& r.status == 201
            &&& r.body == t
            &&& r.location@ == "/tasks/"@ + spec_int_str(t@.id)
        },
        outcome is Err ==> {
            &&& r.status == 500
            &&& r.body@.id == 0
            &&& r.body@.task == payload@
            &&& r.location@ == "/tasks/{id}"@
        },
{
    match outcome {
        Ok(t) => {
            let mut location = String::from_str("/tasks/");
            let id_str = crate::text::i64_to_string(t.id);
            location.append(id_str.as_str());
            CreateResponse { status: 201, location, body: t }
        },
        Err(_) => CreateResponse {
            status: 500,
            location: String::from_str("/tasks/{id}"),
            body: Task { id: 0, task: payload.task },
        },
    }
}

/// Map the outcome of a select-by-id: 200 with the row, or 404 carrying
/// the requested identifier and an empty text.
pub fn task_response(id: i64, outcome: Result<Task, StoreError>) -> (r: GetResponse)
    ensures
        outcome matches Ok(t) ==> r.status == 200 && r.body == t,
        outcome is Err ==> {
            &&& r.status == 404
            &&& r.body@.id == id as int
            &&& r.body@.task == Seq::<char>::empty()
        },
{
    match outcome {
        Ok(t) => GetResponse { status: 200, body: t },
        Err(_) => GetResponse { status: 404, body: Task { id, task: String::new() } },
    }
}

/// Map the affected-row count of an update: 200 exactly when one row was
/// changed, else 404; the submitted payload is echoed either way.
pub fn update_task_response(payload: UpdateTask, outcome: Result<u64, StoreError>) -> (r:
    UpdateResponse)
    ensures
        r.body == payload,
        r.status == (if outcome == Result::<u64, StoreError>::Ok(1u64) {
            200u16
        } else {
            404u16
        }),
{
    match outcome {
        Ok(1) => UpdateResponse { status: 200, body: payload },
        _ => UpdateResponse { status: 404, body: payload },
    }
}

/// Map the affected-row count of a delete: 200 with "Task Deleted"
/// exactly when one row was removed, else 404 with "task not found".
pub fn delete_task_response(outcome: Result<u64, StoreError>) -> (r: DeleteResponse)
    ensures
        outcome == Result::<u64, StoreError>::Ok(1u64) ==> r.status == 200 && r.body@
            == "Task Deleted"@,
        outcome != Result::<u64, StoreError>::Ok(1u64) ==> r.status == 404 && r.body@
            == "task not found"@,
{
    match outcome {
        Ok(1) => DeleteResponse { status: 200, body: Msg { msg: String::from_str("Task Deleted") } },
        _ => DeleteResponse { status: 404, body: Msg { msg: String::from_str("task not found") } },
    }
}

/// List all tasks: 200 with every row in storage order. The model's
/// select never fails, so the 500 branch of the mapper is never taken.
pub fn all_tasks(store: &TaskStore) -> (r: ListResponse)
    ensures
        r.status == 200,
        views_of(r.body@) == store@.rows,
{
    all_tasks_response(Ok(store.list_all()))
}

/// Create a task: 201 with the persisted row and its location; 500
/// echoing the text when the store cannot assign an identifier.
pub fn new_task(store: &mut TaskStore, payload: NewTask) -> (r: CreateResponse)
    requires
        old(store).wf(),
    ensures
        final(store).wf(),
        old(store)@.next_id < i64::MAX ==> {
            &&& r.status == 201
            &&& r.body@ == assigned_task(old(store)@, payload@)
            &&& r.location@ == "/tasks/"@ + spec_int_str(old(store)@.next_id)
            &&& final(store)@ == spec_inserted(old(store)@, payload@)
        },
        old(store)@.next_id == i64::MAX ==> {
            &&& r.status == 500
            &&& r.body@.id == 0
            &&& r.body@.task == payload@
            &&& *final(store) == *old(store)
        },
{
    let outcome = store.insert(&payload.task);
    new_task_response(payload, outcome)
}

/// Return one task by identifier: 200 with the row, or 404 carrying the
/// requested identifier and an empty text when no row has it.
pub fn task(store: &TaskStore, id: i64) -> (r: GetResponse)
    requires
        store.wf(),
    ensures
        has_id(store@.rows, id as int) ==> r.status == 200 && spec_get(store@, id as int)
            == Some(r.body@) && r.body@.id == id as int,
        !has_id(store@.rows, id as int) ==> {
            &&& r.status == 404
            &&& r.body@.id == id as int
            &&& r.body@.task == Seq::<char>::empty()
        },
{
    task_response(id, store.get_by_id(id))
}

/// Update one task's text by identifier, echoing the payload: 200 exactly
/// when the row existed; an absent identifier yields 404 and leaves the
/// table untouched.
pub fn update_task(store: &mut TaskStore, id: i64, payload: UpdateTask) -> (r: UpdateResponse)
    requires
        old(store).wf(),
    ensures
        final(store).wf(),
        final(store)@ == spec_updated(old(store)@, id as int, payload@),
        r.body == payload,
        has_id(old(store)@.rows, id as int) ==> r.status == 200,
        !has_id(old(store)@.rows, id as int) ==> r.status == 404 && *final(store) == *old(store),
{
    let count = store.update_by_id(id, &payload.task);
    update_task_response(payload, Ok(count))
}

/// Delete one task by identifier: 200 with "Task Deleted" exactly when
/// the row existed; an absent identifier yields 404 with "task not found"
/// and leaves the table untouched.
pub fn delete_task(store: &mut TaskStore, id: i64) -> (r: DeleteResponse)
    requires
        old(store).wf(),
    ensures
        final(store).wf(),
        final(store)@ == spec_deleted(old(store)@, id as int),
        has_id(old(store)@.rows, id as int) ==> r.status == 200 && r.body@ == "Task Deleted"@,
        !has_id(old(store)@.rows, id as int) ==> {
            &&& r.status == 404
            &&& r.body@ == "task not found"@
            &&& *final(store) == *old(store)
        },
{
    let count = store.delete_by_id(id);
    delete_task_response(Ok(count))
}

} // verus!
