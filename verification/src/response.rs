//! The HTTP responses of the service, as values: a status code and what the
//! body holds. Writing the body as JSON is left to whoever sends it.
use crate::todo::{Todo, TodoView};
use vstd::prelude::*;

verus! {

/// 200 OK.
pub const OK: u16 = 200;

/// 201 Created.
pub const CREATED: u16 = 201;

/// 204 No Content.
pub const NO_CONTENT: u16 = 204;

/// 500 Internal Server Error.
pub const INTERNAL_SERVER_ERROR: u16 = 500;

/// What the body of a response holds.
#[derive(Debug, PartialEq, Eq)]
pub enum Body {
    /// Nothing: the response has no body.
    Empty,
    /// Todos, to be written as a JSON array of objects.
    Todos(Vec<Todo>),
    /// One todo, to be written as a JSON object.
    Todo(Todo),
    /// A text, to be written as a JSON string.
    Text(String),
}

/// A [`Body`] as a mathematical value.
pub enum BodyView {
    Empty,
    Todos(Seq<TodoView>),
    Todo(TodoView),
    Text(Seq<char>),
}

impl View for Body {
    type V = BodyView;

    open spec fn view(&self) -> BodyView {
        match *self {
            Body::Empty => BodyView::Empty,
            Body::Todos(todos) => BodyView::Todos(todos.deep_view()),
            Body::Todo(todo) => BodyView::Todo(todo@),
            Body::Text(text) => BodyView::Text(text@),
        }
    }
}

/// An HTTP response.
#[derive(Debug, PartialEq, Eq)]
pub struct Response {
    pub status: u16,
    pub body: Body,
}

/// A [`Response`] as a mathematical value.
pub struct ResponseView {
    pub status: int,
    pub body: BodyView,
}

impl View for Response {
    type V = ResponseView;

    open spec fn view(&self) -> ResponseView {
        ResponseView { status: self.status as int, body: self.body@ }
    }
}

/// The response with this status and this body.
pub open spec fn answer(status: u16, body: BodyView) -> ResponseView {
    ResponseView { status: status as int, body }
}

} // verus!
