//! Laws of the todo store, stated over [`StorageModel`] and proved.
use vstd::prelude::*;
use crate::models::{Todo, TodoView};
use crate::storage::{patched, todo_entries, StorageModel};
use crate::table::{keys_unique, table};

verus! {

/// One mutation of the store.
pub enum StoreOp {
    Create(Seq<char>),
    Update(u32, Option<Seq<char>>, Option<bool>),
    Delete(u32),
}

/// The store after one mutation. A creation with no id left cannot be called, and
/// leaves the store as it is.
pub open spec fn apply(m: StorageModel, op: StoreOp) -> StorageModel {
    match op {
        StoreOp::Create(title) => if m.next_id < u32::MAX {
            m.created(title)
        } else {
            m
        },
        StoreOp::Update(id, title, completed) => m.updated(id, title, completed),
        StoreOp::Delete(id) => m.deleted(id),
    }
}

/// The store after a sequence of mutations, in order.
pub open spec fn run(m: StorageModel, ops: Seq<StoreOp>) -> StorageModel
    decreases ops.len(),
{
    if ops.len() == 0 {
        m
    } else {
        apply(run(m, ops.drop_last()), ops.last())
    }
}

/// The ids that the creations of a sequence of mutations hand out.
pub open spec fn issued(m: StorageModel, ops: Seq<StoreOp>) -> Set<u32>
    decreases ops.len(),
{
    if ops.len() == 0 {
        Set::empty()
    } else {
        let before = run(m, ops.drop_last());
        let earlier = issued(m, ops.drop_last());
        match ops.last() {
            StoreOp::Create(_) => if before.next_id < u32::MAX {
                earlier.insert(before.next_id)
            } else {
                earlier
            },
            _ => earlier,
        }
    }
}

/// The store after creating one todo for each title, in order.
pub open spec fn create_all(m: StorageModel, titles: Seq<Seq<char>>) -> StorageModel
    decreases titles.len(),
{
    if titles.len() == 0 {
        m
    } else {
        create_all(m, titles.drop_last()).created(titles.last())
    }
}

/// Every mutation keeps the store well formed and never lowers the counter.
pub proof fn lemma_apply_wf(m: StorageModel, op: StoreOp)
    requires
        m.wf(),
    ensures
        apply(m, op).wf(),
        apply(m, op).next_id >= m.next_id,
{
    match op {
        StoreOp::Create(title) => {
            if m.next_id < u32::MAX {
                let m2 = m.created(title);
                assert forall|k: u32| #[trigger] m2.todos.contains_key(k) implies k < m2.next_id
                    && m2.todos[k].id == k by {
                    if k != m.next_id {
                        assert(m.todos.contains_key(k));
                    }
                }
            }
        },
        StoreOp::Update(id, title, completed) => {
            let m2 = m.updated(id, title, completed);
            assert forall|k: u32| #[trigger] m2.todos.contains_key(k) implies k < m2.next_id
                && m2.todos[k].id == k by {
                assert(m.todos.contains_key(k));
            }
        },
        StoreOp::Delete(id) => {
            let m2 = m.deleted(id);
            assert forall|k: u32| #[trigger] m2.todos.contains_key(k) implies k < m2.next_id
                && m2.todos[k].id == k by {
                assert(m.todos.contains_key(k));
            }
        },
    }
}

/// Along any sequence of mutations the store stays well formed, the counter never goes
/// down, and every id handed out lies at or above the starting counter and below the
/// final one.
pub proof fn lemma_run(m: StorageModel, ops: Seq<StoreOp>)
    requires
        m.wf(),
    ensures
        run(m, ops).wf(),
        run(m, ops).next_id >= m.next_id,
        forall|id: u32| #[trigger]
            issued(m, ops).contains(id) ==> m.next_id <= id < run(m, ops).next_id,
    decreases ops.len(),
{
    if ops.len() > 0 {
        let d = ops.drop_last();
        lemma_run(m, d);
        lemma_apply_wf(run(m, d), ops.last());
        assert forall|id: u32| #[trigger] issued(m, ops).contains(id) implies m.next_id <= id
            < run(m, ops).next_id by {
            if !issued(m, d).contains(id) {
                assert(id == run(m, d).next_id);
            }
        }
    }
}

/// After any sequence of mutations, a creation hands out an id that no earlier creation
/// handed out and that no stored todo holds, and looking that id up gives exactly the
/// title submitted, not completed.
pub proof fn lemma_create_then_get(m: StorageModel, ops: Seq<StoreOp>, title: Seq<char>)
    requires
        m.wf(),
        run(m, ops).next_id < u32::MAX,
    ensures
        ({
            let before = run(m, ops);
            let id = before.next_id;
            &&& before.created(title).lookup(id) == Some(
                TodoView { id, title, completed: false },
            )
            &&& !issued(m, ops).contains(id)
            &&& !before.todos.contains_key(id)
            &&& forall|k: u32| #[trigger] m.todos.contains_key(k) ==> k < id
        }),
{
    lemma_run(m, ops);
}

/// After a deletion, looking the id up finds nothing.
pub proof fn lemma_delete_then_get(m: StorageModel, id: u32)
    ensures
        m.deleted(id).lookup(id) is None,
{
}

/// An update of a stored todo replaces the given fields, keeps its other fields, and
/// leaves every other todo and the counter as they were.
pub proof fn lemma_update_only_given(
    m: StorageModel,
    id: u32,
    title: Option<Seq<char>>,
    completed: Option<bool>,
)
    requires
        m.wf(),
        m.todos.contains_key(id),
    ensures
        ({
            let after = m.updated(id, title, completed);
            let t = after.todos[id];
            &&& after.lookup(id) == Some(patched(m.todos[id], title, completed))
            &&& t.id == id
            &&& t.title == (match title {
                Some(s) => s,
                None => m.todos[id].title,
            })
            &&& t.completed == (match completed {
                Some(c) => c,
                None => m.todos[id].completed,
            })
            &&& forall|k: u32| k != id ==> #[trigger] after.lookup(k) == m.lookup(k)
            &&& after.next_id == m.next_id
        }),
{
}

/// An id that was never handed out is found nowhere, and updating or deleting it
/// changes nothing.
pub proof fn lemma_never_issued(
    m: StorageModel,
    id: u32,
    title: Option<Seq<char>>,
    completed: Option<bool>,
)
    requires
        m.wf(),
        id >= m.next_id,
    ensures
        m.lookup(id) is None,
        m.updated(id, title, completed) == m,
        m.deleted(id) == m,
{
    assert(m.todos.remove(id) =~= m.todos);
}

/// Loading what listing a store gives back yields the same todos by id.
pub proof fn lemma_save_load_round_trip(m: StorageModel, listed: Seq<Todo>)
    requires
        m.wf(),
        keys_unique(todo_entries(listed)),
        table(todo_entries(listed)) == m.todos,
    ensures
        StorageModel::restored(listed).todos == m.todos,
{
}

/// Creating `n` todos in a row hands out `n` distinct consecutive ids, each holding its
/// own title, and the store ends with exactly `n` more todos: none is lost.
pub proof fn lemma_create_all(m: StorageModel, titles: Seq<Seq<char>>)
    requires
        m.wf(),
        m.next_id + titles.len() < u32::MAX,
    ensures
        create_all(m, titles).wf(),
        create_all(m, titles).next_id == m.next_id + titles.len(),
        create_all(m, titles).todos.dom().len() == m.todos.dom().len() + titles.len(),
        forall|i: int|
            0 <= i < titles.len() ==> #[trigger] create_all(m, titles).lookup(
                (m.next_id + i) as u32,
            ) == Some(TodoView { id: (m.next_id + i) as u32, title: titles[i], completed: false }),
    decreases titles.len(),
{
    if titles.len() > 0 {
        let d = titles.drop_last();
        lemma_create_all(m, d);
        let before = create_all(m, d);
        lemma_apply_wf(before, StoreOp::Create(titles.last()));
        assert(!before.todos.contains_key(before.next_id));
        assert forall|i: int| 0 <= i < titles.len() implies #[trigger] create_all(
            m,
            titles,
        ).lookup((m.next_id + i) as u32) == Some(
            TodoView { id: (m.next_id + i) as u32, title: titles[i], completed: false },
        ) by {
            if i < titles.len() - 1 {
                assert(d[i] == titles[i]);
                assert(before.lookup((m.next_id + i) as u32) == Some(
                    TodoView { id: (m.next_id + i) as u32, title: d[i], completed: false },
                ));
            }
        }
    }
}

} // verus!
