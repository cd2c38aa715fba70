//! The task table model and its repository operations.
//!
//! `TaskStore` models the single persisted table: rows in storage order and
//! the identifier the store will assign next. The five repository
//! operations (insert, select-all, select-by-id, update-by-id,
//! delete-by-id) are specified against `StoreView`, the mathematical state
//! of the table, through the transition functions below.

use vstd::prelude::*;

use crate::models::{StoreError, Task, TaskView};

verus! {

/// Mathematical state of the task table: the persisted rows in storage
/// order, and the identifier the store will assign to the next insertion.
pub struct StoreView {
    pub rows: Seq<TaskView>,
    pub next_id: int,
}

/// The row values held by a sequence of tasks.
pub open spec fn views_of(tasks: Seq<Task>) -> Seq<TaskView> {
    tasks.map_values(|t: Task| t@)
}

/// Whether some row carries the given identifier.
pub open spec fn has_id(rows: Seq<TaskView>, id: int) -> bool {
    exists|i: int| 0 <= i < rows.len() && (#[trigger] rows[i]).id == id
}

/// The position of the row carrying the given identifier. Meaningful only
/// when `has_id(rows, id)` holds and identifiers are unique.
pub open spec fn index_of_id(rows: Seq<TaskView>, id: int) -> int {
    choose|i: int| 0 <= i < rows.len() && (#[trigger] rows[i]).id == id
}

/// Table invariant: identifiers are strictly positive, below the next one
/// to be assigned, and strictly increasing in storage order (so they are
/// unique, and rows are ordered by insertion).
pub open spec fn store_wf(s: StoreView) -> bool {
    &&& 1 <= s.next_id <= i64::MAX
    &&& forall|i: int| 0 <= i < s.rows.len() ==> 1 <= (#[trigger] s.rows[i]).id < s.next_id
    &&& forall|i: int, j: int|
        0 <= i < j < s.rows.len() ==> (#[trigger] s.rows[i]).id < (#[trigger] s.rows[j]).id
}

/// The row a successful insertion persists: the next identifier, paired
/// with the submitted text.
pub open spec fn assigned_task(s: StoreView, text: Seq<char>) -> TaskView {
    TaskView { id: s.next_id, task: text }
}

/// Table state after a successful insertion.
pub open spec fn spec_inserted(s: StoreView, text: Seq<char>) -> StoreView {
    StoreView { rows: s.rows.push(assigned_task(s, text)), next_id: s.next_id + 1 }
}

/// The row a selection by identifier returns, if any.
pub open spec fn spec_get(s: StoreView, id: int) -> Option<TaskView> {
    if has_id(s.rows, id) {
        Some(s.rows[index_of_id(s.rows, id)])
    } else {
        None
    }
}

/// Table state after an update by identifier: every row carrying the
/// identifier gets the new text, every other row is untouched.
pub open spec fn spec_updated(s: StoreView, id: int, text: Seq<char>) -> StoreView {
    StoreView {
        rows: Seq::new(
            s.rows.len(),
            |j: int|
                if s.rows[j].id == id {
                    TaskView { id, task: text }
                } else {
                    s.rows[j]
                },
        ),
        next_id: s.next_id,
    }
}

/// Table state after a deletion by identifier: the matching row is
/// removed; an absent identifier leaves the table untouched.
pub open spec fn spec_deleted(s: StoreView, id: int) -> StoreView {
    if has_id(s.rows, id) {
        StoreView { rows: s.rows.remove(index_of_id(s.rows, id)), next_id: s.next_id }
    } else {
        s
    }
}

/// In a well-formed table, a row's identifier determines its position.
pub proof fn lemma_ids_unique(s: StoreView)
    requires
        store_wf(s),
    ensures
        forall|i: int, j: int|
            0 <= i < s.rows.len() && 0 <= j < s.rows.len() && (#[trigger] s.rows[i]).id == (
            #[trigger] s.rows[j]).id ==> i == j,
{
    assert forall|i: int, j: int|
        0 <= i < s.rows.len() && 0 <= j < s.rows.len() && (#[trigger] s.rows[i]).id == (
        #[trigger] s.rows[j]).id implies i == j by {
        if i < j {
            assert(s.rows[i].id < s.rows[j].id);
        } else if j < i {
            assert(s.rows[j].id < s.rows[i].id);
        }
    }
}

/// The model of the persisted task table behind the storage handle: the
/// rows in storage order, and the next identifier to assign.
pub struct TaskStore {
    tasks: Vec<Task>,
    next_id: i64,
}

impl View for TaskStore {
    type V = StoreView;

    closed spec fn view(&self) -> StoreView {
        StoreView { rows: views_of(self.tasks@), next_id: self.next_id as int }
    }
}

impl TaskStore {
    /// Table invariant, stated of the model state.
    pub open spec fn wf(&self) -> bool {
        store_wf(self@)
    }

    /// A freshly bootstrapped table: no rows, identifiers start at 1.
    pub fn new() -> (s: Self)
        ensures
            s@.rows == Seq::<TaskView>::empty(),
            s@.next_id == 1,
            s.wf(),
    {
        let s = TaskStore { tasks: Vec::new(), next_id: 1 };
        proof {
            assert(s@.rows =~= Seq::<TaskView>::empty());
        }
        s
    }

    /// Insert one row; the store assigns the identifier and the full
    /// persisted row is returned. Fails only when the identifier space is
    /// exhausted, the model's one analogue of a failed write.
    pub fn insert(&mut self, text: &String) -> (r: Result<Task, StoreError>)
        requires
            old(self).wf(),
        ensures
            final(self).wf(),
            final(self)@.next_id >= old(self)@.next_id,
            old(self)@.next_id < i64::MAX ==> {
                &&& r matches Ok(t) && t@ == assigned_task(old(self)@, text@)
                &&& final(self)@ == spec_inserted(old(self)@, text@)
            },
            old(self)@.next_id == i64::MAX ==> {
                &&& r matches Err(e) && e == StoreError::Unavailable
                &&& *final(self) == *old(self)
            },
            r matches Ok(t) ==> forall|i: int|
                0 <= i < old(self)@.rows.len() ==> t@.id > (#[trigger] old(self)@.rows[i]).id,
    {
        if self.next_id == i64::MAX {
            return Err(StoreError::Unavailable);
        }
        let id = self.next_id;
        let row = Task { id, task: text.clone() };
        let persisted = row.clone();
        self.tasks.push(row);
        self.next_id = id + 1;
        proof {
            assert(self@.rows =~= old(self)@.rows.push(assigned_task(old(self)@, text@)));
            assert(self@ == spec_inserted(old(self)@, text@));
        }
        Ok(persisted)
    }

    /// Return every row, in storage order; an empty table yields an empty
    /// sequence, not an error.
    pub fn list_all(&self) -> (r: Vec<Task>)
        ensures
            views_of(r@) == self@.rows,
    {
        let mut out: Vec<Task> = Vec::new();
        let n = self.tasks.len();
        let mut i: usize = 0;
        while i < n
            invariant
                n == self.tasks.len(),
                i <= n,
                out@.len() == i,
                forall|k: int| 0 <= k < i ==> (#[trigger] out@[k])@ == self.tasks@[k]@,
            decreases n - i,
        {
            out.push(self.tasks[i].clone());
            i = i + 1;
        }
        proof {
            assert(views_of(out@) =~= self@.rows);
        }
        out
    }

    /// Return the row with the given identifier, or `NotFound` when no row
    /// carries it.
    pub fn get_by_id(&self, id: i64) -> (r: Result<Task, StoreError>)
        requires
            self.wf(),
        ensures
            r matches Ok(t) ==> spec_get(self@, id as int) == Some(t@) && t@.id == id as int,
            r is Ok <==> has_id(self@.rows, id as int),
            r matches Err(e) ==> e == StoreError::NotFound,
    {
        let n = self.tasks.len();
        let mut i: usize = 0;
        while i < n
            invariant
                self.wf(),
                n == self.tasks.len(),
                i <= n,
                forall|k: int| 0 <= k < i ==> (#[trigger] self@.rows[k]).id != id as int,
            decreases n - i,
        {
            if self.tasks[i].id == id {
                let found = self.tasks[i].clone();
                proof {
                    assert(self@.rows[i as int].id == id as int);
                    lemma_ids_unique(self@);
                    assert(index_of_id(self@.rows, id as int) == i as int);
                }
                return Ok(found);
            }
            proof {
                assert(self@.rows[i as int].id != id as int);
            }
            i = i + 1;
        }
        Err(StoreError::NotFound)
    }

    /// Set the text of the row with the given identifier; the returned
    /// affected-row count (0 or 1) is the existence signal. An absent
    /// identifier is a 0-affected-rows result, not an error, and leaves
    /// the table untouched.
    pub fn update_by_id(&mut self, id: i64, text: &String) -> (r: u64)
        requires
            old(self).wf(),
        ensures
            final(self).wf(),
            final(self)@ == spec_updated(old(self)@, id as int, text@),
            final(self)@.rows.len() == old(self)@.rows.len(),
            final(self)@.next_id == old(self)@.next_id,
            r == (if has_id(old(self)@.rows, id as int) {
                1u64
            } else {
                0u64
            }),
            !has_id(old(self)@.rows, id as int) ==> *final(self) == *old(self),
    {
        let n = self.tasks.len();
        let mut i: usize = 0;
        while i < n
            invariant
                old(self).wf(),
                self == old(self),
                n == self.tasks.len(),
                i <= n,
                forall|k: int| 0 <= k < i ==> (#[trigger] self@.rows[k]).id != id as int,
            decreases n - i,
        {
            if self.tasks[i].id == id {
                proof {
                    assert(old(self)@.rows[i as int].id == id as int);
                }
                self.tasks[i] = Task { id, task: text.clone() };
                proof {
                    lemma_ids_unique(old(self)@);
                    assert forall|k: int| 0 <= k < old(self)@.rows.len() && k != i as int implies
                        (#[trigger] old(self)@.rows[k]).id != id as int by {}
                    assert(self@.rows =~= spec_updated(old(self)@, id as int, text@).rows);
                    assert(self@ == spec_updated(old(self)@, id as int, text@));
                }
                return 1;
            }
            proof {
                assert(self@.rows[i as int].id != id as int);
            }
            i = i + 1;
        }
        proof {
            assert(self@.rows =~= spec_updated(old(self)@, id as int, text@).rows);
            assert(self@ == spec_updated(old(self)@, id as int, text@));
        }
        0
    }

    /// Remove the row with the given identifier; the returned affected-row
    /// count (0 or 1) is the existence signal, with the same
    /// no-error-on-no-match policy as the update.
    pub fn delete_by_id(&mut self, id: i64) -> (r: u64)
        requires
            old(self).wf(),
        ensures
            final(self).wf(),
            final(self)@ == spec_deleted(old(self)@, id as int),
            final(self)@.next_id == old(self)@.next_id,
            r == (if has_id(old(self)@.rows, id as int) {
                1u64
            } else {
                0u64
            }),
            !has_id(old(self)@.rows, id as int) ==> *final(self) == *old(self),
    {
        let n = self.tasks.len();
        let mut i: usize = 0;
        while i < n
            invariant
                old(self).wf(),
                self == old(self),
                n == self.tasks.len(),
                i <= n,
                forall|k: int| 0 <= k < i ==> (#[trigger] self@.rows[k]).id != id as int,
            decreases n - i,
        {
            if self.tasks[i].id == id {
                proof {
                    assert(old(self)@.rows[i as int].id == id as int);
                }
                self.tasks.remove(i);
                proof {
                    lemma_ids_unique(old(self)@);
                    assert(index_of_id(old(self)@.rows, id as int) == i as int);
                    assert(self@.rows =~= old(self)@.rows.remove(i as int));
                    assert(self@ == spec_deleted(old(self)@, id as int));
                    assert forall|a: int, b: int|
                        0 <= a < b < self@.rows.len() implies (#[trigger] self@.rows[a]).id < (
                    #[trigger] self@.rows[b]).id by {
                        if b < i as int {
                            assert(old(self)@.rows[a].id < old(self)@.rows[b].id);
                        } else if a < i as int {
                            assert(old(self)@.rows[a].id < old(self)@.rows[b + 1].id);
                        } else {
                            assert(old(self)@.rows[a + 1].id < old(self)@.rows[b + 1].id);
                        }
                    }
                }
                return 1;
            }
            proof {
                assert(self@.rows[i as int].id != id as int);
            }
            i = i + 1;
        }
        0
    }
}

} // verus!
