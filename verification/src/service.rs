//! The four operations of the service. Each is one statement sent to the
//! store and one response made from what came back: [`Request::statement`]
//! is the first half, and the function named after the operation is the
//! second. Nothing is retried, and no operation looks whether the row it
//! names exists.
use crate::response::{
    answer, Body, BodyView, Response, CREATED, INTERNAL_SERVER_ERROR, NO_CONTENT, OK,
};
use crate::statement::{Statement, StatementView, StoreError};
use crate::todo::{CreateTodoRequest, Todo, UpdateTodoRequest};
use vstd::prelude::*;
use vstd::string::StringExecFns;

verus! {

/// A request as it reaches the service, its path and body already decoded.
#[derive(Debug, PartialEq, Eq)]
pub enum Request {
    /// `GET /todos`
    List,
    /// `POST /todos`, with the new todo's title and state.
    Create(CreateTodoRequest),
    /// `PUT /todos/{id}`, with the id and the new state.
    Update(i32, UpdateTodoRequest),
    /// `DELETE /todos/{id}`, with the id.
    Delete(i32),
}

impl Request {
    /// The statement that this request stands for.
    pub open spec fn spec_statement(self) -> StatementView {
        match self {
            Request::List => StatementView::SelectAll,
            Request::Create(todo) => StatementView::Insert {
                title: todo.title@,
                completed: todo.completed,
            },
            Request::Update(id, todo) => StatementView::SetCompleted {
                completed: todo.completed,
                id: id as int,
            },
            Request::Delete(id) => StatementView::Delete { id: id as int },
        }
    }

    /// The one statement to send to the store for this request. A title is
    /// passed on as it came, an empty one too.
    pub fn statement(&self) -> (statement: Statement)
        ensures
            statement@ == self.spec_statement(),
    {
        match self {
            Request::List => Statement::SelectAll,
            Request::Create(todo) => Statement::Insert {
                title: todo.title.clone(),
                completed: todo.completed,
            },
            Request::Update(id, todo) => Statement::SetCompleted {
                completed: todo.completed,
                id: *id,
            },
            Request::Delete(id) => Statement::Delete { id: *id },
        }
    }
}

/// What is put in front of the store's words in the body of a failed update.
pub open spec fn error_prefix() -> Seq<char> {
    "Error: "@
}

/// What is put in front of the store's words in the operator's log.
pub open spec fn log_prefix() -> Seq<char> {
    "Database error: "@
}

/// The line to leave in the operator's log when the store failed this
/// request: the store's own words after a create or an update, nothing after
/// a list or a delete. The log is the only place where a failed create says
/// why.
pub fn diagnostic(request: &Request, error: &StoreError) -> (line: Option<String>)
    ensures
        match line {
            Some(text) => (request is Create || request is Update) && text@ == log_prefix()
                + error@,
            None => request is List || request is Delete,
        },
{
    match request {
        Request::Create(_) | Request::Update(_, _) => Some(
            String::from_str("Database error: ").concat(error.message.as_str()),
        ),
        Request::List | Request::Delete(_) => None,
    }
}

/// Answers a list request: 200 with the rows as the store gave them, in its
/// order, or 500 with no body if the store failed.
pub fn get_todos(outcome: Result<Vec<Todo>, StoreError>) -> (response: Response)
    ensures
        response@ == match outcome {
            Ok(rows) => answer(OK, BodyView::Todos(rows.deep_view())),
            Err(_) => answer(INTERNAL_SERVER_ERROR, BodyView::Empty),
        },
{
    match outcome {
        Ok(rows) => Response { status: OK, body: Body::Todos(rows) },
        Err(_) => Response { status: INTERNAL_SERVER_ERROR, body: Body::Empty },
    }
}

/// Answers a create request: 201 with the row that the store made, the id it
/// gave included, or 500 with no body if the store failed.
pub fn create_todo(outcome: Result<Todo, StoreError>) -> (response: Response)
    ensures
        response@ == match outcome {
            Ok(todo) => answer(CREATED, BodyView::Todo(todo@)),
            Err(_) => answer(INTERNAL_SERVER_ERROR, BodyView::Empty),
        },
{
    match outcome {
        Ok(todo) => Response { status: CREATED, body: Body::Todo(todo) },
        Err(_) => Response { status: INTERNAL_SERVER_ERROR, body: Body::Empty },
    }
}

/// Answers an update request: 200 with no body, however many rows the store
/// touched, none included; 500 with the store's own words in the body if it
/// failed. This is the one operation that shows the caller why the store
/// failed.
pub fn update_todo(outcome: Result<u64, StoreError>) -> (response: Response)
    ensures
        response@ == match outcome {
            Ok(_) => answer(OK, BodyView::Empty),
            Err(error) => answer(INTERNAL_SERVER_ERROR, BodyView::Text(error_prefix() + error@)),
        },
{
    match outcome {
        Ok(_) => Response { status: OK, body: Body::Empty },
        Err(error) => {
            let text = String::from_str("Error: ").concat(error.message.as_str());
            Response { status: INTERNAL_SERVER_ERROR, body: Body::Text(text) }
        },
    }
}

/// Answers a delete request: 204 with no body, however many rows the store
/// removed, none included, or 500 with no body if the store failed.
pub fn delete_todo(outcome: Result<u64, StoreError>) -> (response: Response)
    ensures
        response@ == match outcome {
            Ok(_) => answer(NO_CONTENT, BodyView::Empty),
            Err(_) => answer(INTERNAL_SERVER_ERROR, BodyView::Empty),
        },
{
    match outcome {
        Ok(_) => Response { status: NO_CONTENT, body: Body::Empty },
        Err(_) => Response { status: INTERNAL_SERVER_ERROR, body: Body::Empty },
    }
}

} // verus!
