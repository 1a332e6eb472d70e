//! The statements that the service sends to the store, as values: which of
//! the four it is and what it carries, the SQL text that stands for it, and
//! the parameters in the order of their placeholders.
use vstd::prelude::*;

verus! {

/// A value bound to a placeholder of a statement.
#[derive(Debug, PartialEq, Eq)]
pub enum Param {
    Text(String),
    Bool(bool),
    Int(i32),
}

/// A [`Param`] as a mathematical value.
pub enum ParamView {
    Text(Seq<char>),
    Bool(bool),
    Int(int),
}

impl View for Param {
    type V = ParamView;

    open spec fn view(&self) -> ParamView {
        match *self {
            Param::Text(text) => ParamView::Text(text@),
            Param::Bool(flag) => ParamView::Bool(flag),
            Param::Int(number) => ParamView::Int(number as int),
        }
    }
}

impl DeepView for Param {
    type V = ParamView;

    open spec fn deep_view(&self) -> ParamView {
        self@
    }
}

/// One of the four statements of the service. Each runs alone, in a
/// transaction of its own.
#[derive(Debug, PartialEq, Eq)]
pub enum Statement {
    /// Read every row, in ascending order of id.
    SelectAll,
    /// Add a row; the store picks its id and hands the row back.
    Insert { title: String, completed: bool },
    /// Set `completed` on the rows with this id.
    SetCompleted { completed: bool, id: i32 },
    /// Remove the rows with this id.
    Delete { id: i32 },
}

/// A [`Statement`] as a mathematical value.
pub enum StatementView {
    SelectAll,
    Insert { title: Seq<char>, completed: bool },
    SetCompleted { completed: bool, id: int },
    Delete { id: int },
}

impl StatementView {
    /// The SQL text of the statement.
    pub open spec fn sql(self) -> Seq<char> {
        match self {
            StatementView::SelectAll => "SELECT id, title, completed FROM todos ORDER BY id"@,
            StatementView::Insert { .. } =>
                "INSERT INTO todos (title, completed) VALUES ($1, $2) RETURNING id, title, completed"@,
            StatementView::SetCompleted { .. } => "UPDATE todos SET completed = $1 WHERE id = $2"@,
            StatementView::Delete { .. } => "DELETE FROM todos WHERE id = $1"@,
        }
    }

    /// The values for `$1`, `$2`, ... in that order.
    pub open spec fn params(self) -> Seq<ParamView> {
        match self {
            StatementView::SelectAll => seq![],
            StatementView::Insert { title, completed } => seq![
                ParamView::Text(title),
                ParamView::Bool(completed),
            ],
            StatementView::SetCompleted { completed, id } => seq![
                ParamView::Bool(completed),
                ParamView::Int(id),
            ],
            StatementView::Delete { id } => seq![ParamView::Int(id)],
        }
    }
}

impl View for Statement {
    type V = StatementView;

    open spec fn view(&self) -> StatementView {
        match *self {
            Statement::SelectAll => StatementView::SelectAll,
            Statement::Insert { title, completed } => StatementView::Insert {
                title: title@,
                completed,
            },
            Statement::SetCompleted { completed, id } => StatementView::SetCompleted {
                completed,
                id: id as int,
            },
            Statement::Delete { id } => StatementView::Delete { id: id as int },
        }
    }
}

impl Statement {
    /// The SQL text to send for this statement.
    pub fn sql(&self) -> (text: &'static str)
        ensures
            text@ == self@.sql(),
    {
        match self {
            Statement::SelectAll => "SELECT id, title, completed FROM todos ORDER BY id",
            Statement::Insert { .. } =>
                "INSERT INTO todos (title, completed) VALUES ($1, $2) RETURNING id, title, completed",
            Statement::SetCompleted { .. } => "UPDATE todos SET completed = $1 WHERE id = $2",
            Statement::Delete { .. } => "DELETE FROM todos WHERE id = $1",
        }
    }

    /// The parameters to bind, first placeholder first.
    pub fn params(&self) -> (params: Vec<Param>)
        ensures
            params.deep_view() == self@.params(),
    {
        let mut params: Vec<Param> = Vec::new();
        match self {
            Statement::SelectAll => {},
            Statement::Insert { title, completed } => {
                params.push(Param::Text(title.clone()));
                params.push(Param::Bool(*completed));
            },
            Statement::SetCompleted { completed, id } => {
                params.push(Param::Bool(*completed));
                params.push(Param::Int(*id));
            },
            Statement::Delete { id } => {
                params.push(Param::Int(*id));
            },
        }
        params
    }
}

/// A statement that the store could not carry out, with the store's own
/// words for why.
#[derive(Debug, PartialEq, Eq)]
pub struct StoreError {
    pub message: String,
}

impl View for StoreError {
    type V = Seq<char>;

    open spec fn view(&self) -> Seq<char> {
        self.message@
    }
}

} // verus!
