//! The todo store: todos keyed by an id that a counter hands out.
//!
//! The store holds its todos in a `Vec` with unique ids; what it means is a
//! [`StorageModel`]: a map from id to todo and the next id to hand out.
use vstd::prelude::*;
use crate::models::{Todo, TodoView};
use crate::table::{
    keys_unique, lemma_table_dom, lemma_table_finite, lemma_table_index, lemma_table_push,
    lemma_table_remove, lemma_table_update, lemma_unique_push, table,
};

verus! {

/// The entries that a sequence of todos stands for: each todo under its id.
pub open spec fn todo_entries(s: Seq<Todo>) -> Seq<(u32, TodoView)> {
    s.map_values(|t: Todo| (t.id, t@))
}

/// The largest id in a sequence of todos, or 0 for none.
pub open spec fn max_id(s: Seq<Todo>) -> u32
    decreases s.len(),
{
    if s.len() == 0 {
        0
    } else if s.last().id > max_id(s.drop_last()) {
        s.last().id
    } else {
        max_id(s.drop_last())
    }
}

/// A todo with the given fields replaced, the others kept.
pub open spec fn patched(
    t: TodoView,
    title: Option<Seq<char>>,
    completed: Option<bool>,
) -> TodoView {
    TodoView {
        id: t.id,
        title: match title {
            Some(s) => s,
            None => t.title,
        },
        completed: match completed {
            Some(c) => c,
            None => t.completed,
        },
    }
}

/// The view of an optional string.
pub open spec fn opt_view(s: Option<String>) -> Option<Seq<char>> {
    match s {
        Some(t) => Some(t@),
        None => None,
    }
}

/// What a store holds: its todos by id, and the id that the next creation takes.
pub struct StorageModel {
    pub todos: Map<u32, TodoView>,
    pub next_id: u32,
}

impl StorageModel {
    /// Every todo is stored under its own id, every id lies below the next one, and
    /// ids start at 1.
    pub open spec fn wf(self) -> bool {
        &&& self.todos.dom().finite()
        &&& self.next_id >= 1
        &&& forall|k: u32| #[trigger]
            self.todos.contains_key(k) ==> k < self.next_id && self.todos[k].id == k
    }

    /// The todo under `id`, if there is one.
    pub open spec fn lookup(self, id: u32) -> Option<TodoView> {
        if self.todos.contains_key(id) {
            Some(self.todos[id])
        } else {
            None
        }
    }

    /// The todo that the next creation with `title` makes.
    pub open spec fn fresh(self, title: Seq<char>) -> TodoView {
        TodoView { id: self.next_id, title, completed: false }
    }

    /// The store after creating a todo with `title`.
    pub open spec fn created(self, title: Seq<char>) -> StorageModel {
        StorageModel {
            todos: self.todos.insert(self.next_id, self.fresh(title)),
            next_id: (self.next_id + 1) as u32,
        }
    }

    /// The store after updating the todo under `id`; unchanged where there is none.
    pub open spec fn updated(
        self,
        id: u32,
        title: Option<Seq<char>>,
        completed: Option<bool>,
    ) -> StorageModel {
        if self.todos.contains_key(id) {
            StorageModel {
                todos: self.todos.insert(id, patched(self.todos[id], title, completed)),
                next_id: self.next_id,
            }
        } else {
            self
        }
    }

    /// The store after deleting the todo under `id`; unchanged where there is none.
    pub open spec fn deleted(self, id: u32) -> StorageModel {
        StorageModel { todos: self.todos.remove(id), next_id: self.next_id }
    }

    /// The store that loading a saved list of todos gives: each todo under its id, a
    /// later one replacing an earlier one with the same id, and the counter past the
    /// largest id.
    pub open spec fn restored(saved: Seq<Todo>) -> StorageModel {
        StorageModel { todos: table(todo_entries(saved)), next_id: (max_id(saved) + 1) as u32 }
    }
}

/// The todo store.
pub struct Storage {
    todos: Vec<Todo>,
    next_id: u32,
}

impl View for Storage {
    type V = StorageModel;

    closed spec fn view(&self) -> StorageModel {
        StorageModel { todos: table(todo_entries(self.todos@)), next_id: self.next_id }
    }
}

/// No id in a sequence exceeds its largest id.
proof fn lemma_max_id(s: Seq<Todo>, i: int)
    requires
        0 <= i < s.len(),
    ensures
        s[i].id <= max_id(s),
    decreases s.len(),
{
    if i < s.len() - 1 {
        lemma_max_id(s.drop_last(), i);
    }
}

/// The largest id is below `u32::MAX` when every id is.
proof fn lemma_max_id_bound(s: Seq<Todo>)
    requires
        forall|i: int| 0 <= i < s.len() ==> #[trigger] s[i].id < u32::MAX,
    ensures
        max_id(s) < u32::MAX,
    decreases s.len(),
{
    if s.len() > 0 {
        let d = s.drop_last();
        assert forall|i: int| 0 <= i < d.len() implies #[trigger] d[i].id < u32::MAX by {
            assert(d[i] == s[i]);
        }
        lemma_max_id_bound(d);
        assert(s[s.len() - 1].id < u32::MAX);
    }
}

impl Storage {
    /// The store's invariant: ids are unique in the list, and the model is well formed.
    pub closed spec fn wf(&self) -> bool {
        &&& keys_unique(todo_entries(self.todos@))
        &&& self@.wf()
    }

    /// A well-formed store has a well-formed model.
    pub proof fn lemma_wf(&self)
        requires
            self.wf(),
        ensures
            self@.wf(),
    {
    }

    /// An empty store whose first todo takes id 1.
    pub fn new() -> (r: Storage)
        ensures
            r.wf(),
            r@.todos == Map::<u32, TodoView>::empty(),
            r@.next_id == 1,
    {
        let r = Storage { todos: Vec::new(), next_id: 1 };
        proof {
            assert(todo_entries(r.todos@) =~= Seq::<(u32, TodoView)>::empty());
            assert(r@.todos =~= Map::<u32, TodoView>::empty());
        }
        r
    }

    /// A store loaded from a saved list of todos: each put under its id in turn (a
    /// later one replaces an earlier one with the same id), and the counter set one
    /// past the largest id.
    pub fn restore(saved: Vec<Todo>) -> (r: Storage)
        requires
            forall|i: int| 0 <= i < saved@.len() ==> #[trigger] saved@[i].id < u32::MAX,
        ensures
            r.wf(),
            r@ == StorageModel::restored(saved@),
    {
        let mut max: u32 = 0;
        let mut i: usize = 0;
        while i < saved.len()
            invariant
                0 <= i <= saved@.len(),
                forall|j: int| 0 <= j < saved@.len() ==> #[trigger] saved@[j].id < u32::MAX,
                max == max_id(saved@.take(i as int)),
            decreases saved@.len() - i,
        {
            proof {
                assert(saved@.take(i + 1).drop_last() =~= saved@.take(i as int));
            }
            if saved[i].id > max {
                max = saved[i].id;
            }
            i += 1;
        }
        proof {
            assert(saved@.take(i as int) =~= saved@);
            lemma_max_id_bound(saved@);
        }
        let mut r = Storage { todos: Vec::new(), next_id: max + 1 };
        proof {
            assert(todo_entries(r.todos@) =~= Seq::<(u32, TodoView)>::empty());
            assert(r@.todos =~= Map::<u32, TodoView>::empty());
        }
        let mut i: usize = 0;
        while i < saved.len()
            invariant
                0 <= i <= saved@.len(),
                max == max_id(saved@),
                r.wf(),
                r.next_id == max + 1,
                r@.todos == table(todo_entries(saved@.take(i as int))),
            decreases saved@.len() - i,
        {
            proof {
                let e = (saved@[i as int].id, saved@[i as int]@);
                lemma_max_id(saved@, i as int);
                assert(todo_entries(saved@.take(i + 1)) =~= todo_entries(
                    saved@.take(i as int),
                ).push(e));
                lemma_table_push(todo_entries(saved@.take(i as int)), e);
            }
            r.put(saved[i].duplicate());
            i += 1;
        }
        proof {
            assert(saved@.take(i as int) =~= saved@);
        }
        r
    }

    /// Whether the counter has an id left for one more todo.
    pub fn can_create(&self) -> (r: bool)
        ensures
            r == (self@.next_id < u32::MAX),
    {
        self.next_id < u32::MAX
    }

    /// A copy of every stored todo, each once.
    pub fn get_all(&self) -> (r: Vec<Todo>)
        requires
            self.wf(),
        ensures
            keys_unique(todo_entries(r@)),
            table(todo_entries(r@)) == self@.todos,
    {
        let mut r: Vec<Todo> = Vec::new();
        let mut i: usize = 0;
        while i < self.todos.len()
            invariant
                0 <= i <= self.todos@.len(),
                todo_entries(r@) == todo_entries(self.todos@.take(i as int)),
            decreases self.todos@.len() - i,
        {
            let ghost before = r@;
            let d = self.todos[i].duplicate();
            r.push(d);
            proof {
                let e = (d.id, d@);
                assert(todo_entries(r@) =~= todo_entries(before).push(e));
                assert(self.todos@.take(i + 1) =~= self.todos@.take(i as int).push(
                    self.todos@[i as int],
                ));
                assert(todo_entries(self.todos@.take(i + 1)) =~= todo_entries(
                    self.todos@.take(i as int),
                ).push(e));
            }
            i += 1;
        }
        proof {
            assert(self.todos@.take(i as int) =~= self.todos@);
        }
        r
    }

    /// A copy of the todo under `id`, if there is one.
    pub fn get_by_id(&self, id: u32) -> (r: Option<Todo>)
        requires
            self.wf(),
        ensures
            match r {
                Some(t) => self@.lookup(id) == Some(t@),
                None => self@.lookup(id) is None,
            },
    {
        match self.position(id) {
            Some(i) => Some(self.todos[i].duplicate()),
            None => None,
        }
    }

    /// Creates a todo with `title`, not completed, under the next id, and returns a copy.
    pub fn create(&mut self, title: String) -> (r: Todo)
        requires
            old(self).wf(),
            old(self)@.next_id < u32::MAX,
        ensures
            final(self).wf(),
            r@ == old(self)@.fresh(title@),
            final(self)@ == old(self)@.created(title@),
    {
        let id = self.next_id;
        self.next_id = id + 1;
        let t = Todo { id, title, completed: false };
        let r = t.duplicate();
        self.put(t);
        r
    }

    /// Replaces the given fields of the todo under `id` and returns a copy of it; with
    /// no todo there, changes nothing and returns `None`.
    pub fn update(&mut self, id: u32, title: Option<String>, completed: Option<bool>) -> (r: Option<
        Todo,
    >)
        requires
            old(self).wf(),
        ensures
            final(self).wf(),
            final(self)@ == old(self)@.updated(id, opt_view(title), completed),
            match r {
                Some(t) => old(self)@.todos.contains_key(id) && t@ == patched(
                    old(self)@.todos[id],
                    opt_view(title),
                    completed,
                ),
                None => !old(self)@.todos.contains_key(id),
            },
    {
        match self.position(id) {
            Some(i) => {
                let cur = &self.todos[i];
                let t = Todo {
                    id: cur.id,
                    title: match title {
                        Some(s) => s,
                        None => cur.title.clone(),
                    },
                    completed: match completed {
                        Some(c) => c,
                        None => cur.completed,
                    },
                };
                let r = t.duplicate();
                self.put(t);
                Some(r)
            },
            None => None,
        }
    }

    /// Removes the todo under `id`; says whether there was one.
    pub fn delete(&mut self, id: u32) -> (r: bool)
        requires
            old(self).wf(),
        ensures
            final(self).wf(),
            final(self)@ == old(self)@.deleted(id),
            r == old(self)@.todos.contains_key(id),
    {
        match self.position(id) {
            Some(i) => {
                proof {
                    lemma_table_remove(todo_entries(self.todos@), i as int);
                }
                self.todos.remove(i);
                proof {
                    assert(todo_entries(self.todos@) =~= todo_entries(old(self).todos@).remove(
                        i as int,
                    ));
                    lemma_table_finite(todo_entries(self.todos@));
                    assert(self@.todos =~= old(self)@.todos.remove(id));
                }
                true
            },
            None => {
                proof {
                    assert(old(self)@.todos.remove(id) =~= old(self)@.todos);
                }
                false
            },
        }
    }

    /// The index of the todo under `id` in the list, if there is one.
    fn position(&self, id: u32) -> (r: Option<usize>)
        requires
            self.wf(),
        ensures
            match r {
                Some(i) => i < self.todos@.len() && self.todos@[i as int].id == id
                    && self@.todos.contains_key(id) && self@.todos[id] == self.todos@[i as int]@,
                None => !self@.todos.contains_key(id),
            },
    {
        let mut i: usize = 0;
        while i < self.todos.len()
            invariant
                self.wf(),
                0 <= i <= self.todos@.len(),
                forall|j: int| 0 <= j < i ==> self.todos@[j].id != id,
            decreases self.todos@.len() - i,
        {
            if self.todos[i].id == id {
                proof {
                    lemma_table_index(todo_entries(self.todos@), i as int);
                }
                return Some(i);
            }
            i += 1;
        }
        proof {
            lemma_table_dom(todo_entries(self.todos@), id);
            if self@.todos.contains_key(id) {
                let j = choose|j: int|
                    0 <= j < todo_entries(self.todos@).len() && todo_entries(self.todos@)[j].0
                        == id;
                assert(self.todos@[j].id == id);
            }
        }
        None
    }

    /// Puts `t` under its id, replacing any todo there; the counter is unchanged.
    fn put(&mut self, t: Todo)
        requires
            old(self).wf(),
            t.id < old(self).next_id,
        ensures
            final(self).wf(),
            final(self)@.todos == old(self)@.todos.insert(t.id, t@),
            final(self)@.next_id == old(self)@.next_id,
    {
        let ghost e = (t.id, t@);
        match self.position(t.id) {
            Some(j) => {
                proof {
                    lemma_table_update(todo_entries(self.todos@), j as int, e);
                }
                self.todos.set(j, t);
                proof {
                    assert(todo_entries(self.todos@) =~= todo_entries(old(self).todos@).update(
                        j as int,
                        e,
                    ));
                }
            },
            None => {
                proof {
                    lemma_unique_push(todo_entries(self.todos@), e);
                    lemma_table_push(todo_entries(self.todos@), e);
                }
                self.todos.push(t);
                proof {
                    assert(todo_entries(self.todos@) =~= todo_entries(old(self).todos@).push(e));
                }
            },
        }
        proof {
            lemma_table_finite(todo_entries(self.todos@));
        }
    }
}

} // verus!
