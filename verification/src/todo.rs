//! The todo record and the bodies of the two requests that carry one.
use vstd::prelude::*;

verus! {

/// A todo as a mathematical value.
pub struct TodoView {
    pub id: int,
    pub title: Seq<char>,
    pub completed: bool,
}

/// One row of the `todos` table.
#[derive(Debug, PartialEq, Eq)]
pub struct Todo {
    pub id: i32,
    pub title: String,
    pub completed: bool,
}

impl View for Todo {
    type V = TodoView;

    open spec fn view(&self) -> TodoView {
        TodoView { id: self.id as int, title: self.title@, completed: self.completed }
    }
}

impl DeepView for Todo {
    type V = TodoView;

    open spec fn deep_view(&self) -> TodoView {
        self@
    }
}

impl Clone for Todo {
    fn clone(&self) -> (copy: Self)
        ensures
            copy == *self,
    {
        Todo { id: self.id, title: self.title.clone(), completed: self.completed }
    }
}

/// Body of a create request: the fields of a todo that the caller chooses.
#[derive(Debug, PartialEq, Eq)]
pub struct CreateTodoRequest {
    pub title: String,
    pub completed: bool,
}

/// Body of an update request: the one field that can change.
#[derive(Debug, PartialEq, Eq)]
pub struct UpdateTodoRequest {
    pub completed: bool,
}

} // verus!
