use todo_service::service::Request;
use todo_service::statement::{Param, Statement};
use todo_service::todo::{CreateTodoRequest, UpdateTodoRequest};

#[test]
fn list_sends_the_ordered_select() {
    let statement = Request::List.statement();
    assert_eq!(statement, Statement::SelectAll);
    assert_eq!(statement.sql(), "SELECT id, title, completed FROM todos ORDER BY id");
    assert_eq!(statement.params(), Vec::<Param>::new());
}

#[test]
fn create_sends_the_insert_with_title_then_completed() {
    let request =
        Request::Create(CreateTodoRequest { title: "Buy milk".to_string(), completed: false });
    let statement = request.statement();
    assert_eq!(
        statement,
        Statement::Insert { title: "Buy milk".to_string(), completed: false }
    );
    assert_eq!(
        statement.sql(),
        "INSERT INTO todos (title, completed) VALUES ($1, $2) RETURNING id, title, completed"
    );
    assert_eq!(
        statement.params(),
        vec![Param::Text("Buy milk".to_string()), Param::Bool(false)]
    );
}

#[test]
fn create_passes_an_empty_title_on() {
    let request = Request::Create(CreateTodoRequest { title: String::new(), completed: true });
    let statement = request.statement();
    assert_eq!(statement, Statement::Insert { title: String::new(), completed: true });
    assert_eq!(statement.params(), vec![Param::Text(String::new()), Param::Bool(true)]);
}

#[test]
fn update_sends_completed_then_id() {
    let request = Request::Update(7, UpdateTodoRequest { completed: true });
    let statement = request.statement();
    assert_eq!(statement, Statement::SetCompleted { completed: true, id: 7 });
    assert_eq!(statement.sql(), "UPDATE todos SET completed = $1 WHERE id = $2");
    assert_eq!(statement.params(), vec![Param::Bool(true), Param::Int(7)]);
}

#[test]
fn delete_sends_the_id() {
    let statement = Request::Delete(-3).statement();
    assert_eq!(statement, Statement::Delete { id: -3 });
    assert_eq!(statement.sql(), "DELETE FROM todos WHERE id = $1");
    assert_eq!(statement.params(), vec![Param::Int(-3)]);
}

#[test]
fn placeholders_match_the_number_of_params() {
    let requests = vec![
        Request::List,
        Request::Create(CreateTodoRequest { title: "a".to_string(), completed: false }),
        Request::Update(1, UpdateTodoRequest { completed: false }),
        Request::Delete(1),
    ];
    for request in requests {
        let statement = request.statement();
        let params = statement.params();
        let sql = statement.sql();
        for n in 1..=params.len() {
            assert!(sql.contains(&format!("${}", n)));
        }
        assert!(!sql.contains(&format!("${}", params.len() + 1)));
    }
}
