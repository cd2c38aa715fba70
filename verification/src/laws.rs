//! Laws of the task table: properties that relate several repository
//! operations, stated over the transition functions of `crate::store` and
//! proved once for every table state that satisfies the invariant.

use vstd::prelude::*;

use crate::models::TaskView;
use crate::store::{
    assigned_task, has_id, index_of_id, lemma_ids_unique, spec_deleted, spec_get, spec_inserted,
    spec_updated, store_wf, StoreView,
};

verus! {

/// Law: identifier assignment is monotonic. A successful insertion
/// assigns an identifier strictly greater than that of every row present,
/// and the store's counter strictly grows with it.
pub proof fn lemma_insert_id_monotonic(s: StoreView, text: Seq<char>)
    requires
        store_wf(s),
    ensures
        forall|i: int|
            0 <= i < s.rows.len() ==> assigned_task(s, text).id > (#[trigger] s.rows[i]).id,
        spec_inserted(s, text).next_id > s.next_id,
{
}

/// Law: only an insertion moves the identifier counter, and it only moves
/// it up; updates and deletions leave it alone. Together with the table
/// invariant this keeps every identifier ever assigned below the counter,
/// so an identifier is never reused after deletion.
pub proof fn lemma_next_id_never_decreases(s: StoreView, id: int, text: Seq<char>)
    ensures
        spec_inserted(s, text).next_id > s.next_id,
        spec_updated(s, id, text).next_id == s.next_id,
        spec_deleted(s, id).next_id == s.next_id,
{
}

/// Law: an identifier the counter has not reached, or below 1, belongs to
/// no row.
pub proof fn lemma_unassigned_id_absent(s: StoreView, id: int)
    requires
        store_wf(s),
        id >= s.next_id || id < 1,
    ensures
        !has_id(s.rows, id),
{
}

/// Insertion preserves the table invariant whenever the identifier space
/// is not exhausted.
pub proof fn lemma_insert_preserves_wf(s: StoreView, text: Seq<char>)
    requires
        store_wf(s),
        s.next_id < i64::MAX,
    ensures
        store_wf(spec_inserted(s, text)),
{
    let f = spec_inserted(s, text);
    assert forall|i: int, j: int| 0 <= i < j < f.rows.len() implies (#[trigger] f.rows[i]).id < (
    #[trigger] f.rows[j]).id by {
        if j < s.rows.len() {
            assert(s.rows[i].id < s.rows[j].id);
        } else {
            assert(f.rows[j] == assigned_task(s, text));
            assert(s.rows[i].id < s.next_id);
        }
    }
}

/// Table state after a sequence of insertions, one per text, in order.
pub open spec fn spec_inserted_all(s: StoreView, texts: Seq<Seq<char>>) -> StoreView
    decreases texts.len(),
{
    if texts.len() == 0 {
        s
    } else {
        spec_inserted_all(spec_inserted(s, texts[0]), texts.drop_first())
    }
}

/// Law: N sequential successful insertions add exactly N rows, behind the
/// existing ones, in insertion order, carrying the submitted texts and
/// consecutive identifiers; select-all therefore returns exactly those N
/// entries in insertion order.
pub proof fn lemma_sequential_inserts(s: StoreView, texts: Seq<Seq<char>>)
    requires
        store_wf(s),
        s.next_id + texts.len() <= i64::MAX,
    ensures
        ({
            let f = spec_inserted_all(s, texts);
            &&& store_wf(f)
            &&& f.next_id == s.next_id + texts.len()
            &&& f.rows.len() == s.rows.len() + texts.len()
            &&& forall|k: int| 0 <= k < s.rows.len() ==> f.rows[k] == s.rows[k]
            &&& forall|k: int|
                0 <= k < texts.len() ==> (#[trigger] f.rows[s.rows.len() + k]).task == texts[k]
            &&& forall|k: int|
                0 <= k < texts.len() ==> (#[trigger] f.rows[s.rows.len() + k]).id == s.next_id + k
        }),
    decreases texts.len(),
{
    if texts.len() == 0 {
    } else {
        let s1 = spec_inserted(s, texts[0]);
        lemma_insert_preserves_wf(s, texts[0]);
        lemma_sequential_inserts(s1, texts.drop_first());
        let f = spec_inserted_all(s, texts);
        let rest = texts.drop_first();
        assert(f == spec_inserted_all(s1, rest));
        assert(s1.rows[s.rows.len() as int] == assigned_task(s, texts[0]));
        assert forall|k: int| 0 <= k < texts.len() implies (#[trigger] f.rows[s.rows.len() + k]).task
            == texts[k] && f.rows[s.rows.len() + k].id == s.next_id + k by {
            if k == 0 {
                assert(f.rows[s.rows.len() as int] == s1.rows[s.rows.len() as int]);
            } else {
                assert(f.rows[s1.rows.len() + (k - 1)].task == rest[k - 1]);
                assert(f.rows[s1.rows.len() + (k - 1)].id == s1.next_id + (k - 1));
                assert(rest[k - 1] == texts[k]);
            }
        }
    }
}

/// Law: the round trip of one row. Inserting a text yields a row whose
/// identifier then selects exactly that row; updating it by that
/// identifier makes the selection return the new text; deleting it by
/// that identifier makes the selection fail and returns the table to the
/// rows it held before the insertion.
pub proof fn lemma_round_trip(s: StoreView, text: Seq<char>, text2: Seq<char>)
    requires
        store_wf(s),
        s.next_id < i64::MAX,
    ensures
        ({
            let id = s.next_id;
            let s1 = spec_inserted(s, text);
            let s2 = spec_updated(s1, id, text2);
            let s3 = spec_deleted(s2, id);
            &&& store_wf(s1) && store_wf(s2) && store_wf(s3)
            &&& spec_get(s1, id) == Some(TaskView { id, task: text })
            &&& spec_get(s2, id) == Some(TaskView { id, task: text2 })
            &&& spec_get(s3, id) is None
            &&& !has_id(s3.rows, id)
            &&& s3.rows == s.rows
        }),
{
    let id = s.next_id;
    let s1 = spec_inserted(s, text);
    let s2 = spec_updated(s1, id, text2);
    let s3 = spec_deleted(s2, id);
    let pos = s.rows.len() as int;

    lemma_insert_preserves_wf(s, text);
    assert(s1.rows[pos] == assigned_task(s, text));
    assert(has_id(s1.rows, id));
    lemma_ids_unique(s1);
    assert(index_of_id(s1.rows, id) == pos);
    assert(spec_get(s1, id) == Some(TaskView { id, task: text }));

    assert forall|k: int| 0 <= k < s2.rows.len() implies (#[trigger] s2.rows[k]).id
        == s1.rows[k].id by {}
    assert(store_wf(s2));
    assert(s2.rows[pos] == TaskView { id, task: text2 });
    assert(has_id(s2.rows, id));
    lemma_ids_unique(s2);
    assert(index_of_id(s2.rows, id) == pos);
    assert(spec_get(s2, id) == Some(TaskView { id, task: text2 }));

    assert(s3.rows =~= s.rows);
    assert forall|k: int| 0 <= k < s3.rows.len() implies (#[trigger] s3.rows[k]).id != id by {
        assert(s.rows[k].id < s.next_id);
    }
    assert(!has_id(s3.rows, id));
    assert(store_wf(s3));
}

} // verus!
