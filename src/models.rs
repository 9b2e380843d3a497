//! The todo entity and the request bodies that create and update it.
use vstd::prelude::*;

verus! {

/// A stored todo: an id given by the store, a title, and whether it is done.
#[derive(Clone, Debug)]
pub struct Todo {
    pub id: u32,
    pub title: String,
    pub completed: bool,
}

/// What a todo is, as plain values.
pub struct TodoView {
    pub id: u32,
    pub title: Seq<char>,
    pub completed: bool,
}

impl View for Todo {
    type V = TodoView;

    open spec fn view(&self) -> TodoView {
        TodoView { id: self.id, title: self.title@, completed: self.completed }
    }
}

impl Todo {
    /// A copy of this todo, field for field.
    pub fn duplicate(&self) -> (r: Todo)
        ensures
            r@ == self@,
    {
        Todo { id: self.id, title: self.title.clone(), completed: self.completed }
    }
}

/// The body of a request that creates a todo.
#[derive(Clone, Debug)]
pub struct CreateTodoRequest {
    pub title: String,
}

/// The body of a request that updates a todo: only the fields given change.
#[derive(Clone, Debug)]
pub struct UpdateTodoRequest {
    pub title: Option<String>,
    pub completed: Option<bool>,
}

} // verus!
