//! Data model: the persisted `Task` entity, the two wire-level payload
//! shapes derived from it, the message body used by the delete endpoint,
//! and the store-level error taxonomy.

use vstd::prelude::*;

verus! {

/// Mathematical value of a persisted task row.
pub struct TaskView {
    pub id: int,
    pub task: Seq<char>,
}

/// A persisted task row: a store-assigned identifier and free-form text.
pub struct Task {
    pub id: i64,
    pub task: String,
}

impl View for Task {
    type V = TaskView;

    open spec fn view(&self) -> TaskView {
        TaskView { id: self.id as int, task: self.task@ }
    }
}

impl Clone for Task {
    fn clone(&self) -> (r: Self)
        ensures
            r@ == self@,
    {
        Task { id: self.id, task: self.task.clone() }
    }
}

/// Creation payload: carries only the text; the store assigns the id.
pub struct NewTask {
    pub task: String,
}

impl View for NewTask {
    type V = Seq<char>;

    open spec fn view(&self) -> Seq<char> {
        self.task@
    }
}

/// Update payload: carries only the new text; the id comes from the path.
pub struct UpdateTask {
    pub task: String,
}

impl View for UpdateTask {
    type V = Seq<char>;

    open spec fn view(&self) -> Seq<char> {
        self.task@
    }
}

/// Message body returned by the delete endpoint.
pub struct Msg {
    pub msg: String,
}

impl View for Msg {
    type V = Seq<char>;

    open spec fn view(&self) -> Seq<char> {
        self.msg@
    }
}

/// Store-level failures, as the handlers distinguish them: a row that is
/// absent, and every other failure of the storage handle (connection lost,
/// pool exhausted, identifier space exhausted).
pub enum StoreError {
    NotFound,
    Unavailable,
}

} // verus!
