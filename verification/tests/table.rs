use todo_service::statement::StoreError;
use todo_service::table::{TodoTable, MAX_ID};
use todo_service::todo::Todo;

fn todo(id: i32, title: &str, completed: bool) -> Todo {
    Todo { id, title: title.to_string(), completed }
}

fn ids(table: &TodoTable) -> Vec<i32> {
    table.select_all().iter().map(|row| row.id).collect()
}

#[test]
fn new_table_is_empty() {
    let table = TodoTable::new();
    assert_eq!(table.select_all(), Vec::<Todo>::new());
}

#[test]
fn first_insert_gets_id_one() {
    let mut table = TodoTable::new();
    assert_eq!(table.insert("a".to_string(), true), Ok(todo(1, "a", true)));
    assert_eq!(table.select_all(), vec![todo(1, "a", true)]);
}

#[test]
fn created_ids_are_unique_and_increasing() {
    let mut table = TodoTable::new();
    let mut handed_out = Vec::new();
    for n in 0..50 {
        let row = table.insert(format!("todo {}", n), n % 2 == 0).unwrap();
        handed_out.push(row.id);
    }
    assert_eq!(handed_out, (1..=50).collect::<Vec<i32>>());
    assert_eq!(ids(&table), handed_out);
}

#[test]
fn ids_are_not_handed_out_again_after_a_delete() {
    let mut table = TodoTable::new();
    assert_eq!(table.insert("a".to_string(), false).unwrap().id, 1);
    assert_eq!(table.insert("b".to_string(), false).unwrap().id, 2);
    assert_eq!(table.delete(2), 1);
    assert_eq!(table.delete(1), 1);
    assert_eq!(table.insert("c".to_string(), false).unwrap().id, 3);
    assert_eq!(table.select_all(), vec![todo(3, "c", false)]);
}

#[test]
fn list_is_ordered_by_ascending_id_after_mixed_statements() {
    let mut table = TodoTable::new();
    for n in 0..10 {
        table.insert(format!("todo {}", n), false).unwrap();
    }
    assert_eq!(table.delete(4), 1);
    assert_eq!(table.set_completed(9, true), 1);
    table.insert("late".to_string(), true).unwrap();
    assert_eq!(table.delete(1), 1);
    assert_eq!(table.set_completed(2, true), 1);
    assert_eq!(table.delete(10), 1);
    table.insert("later".to_string(), false).unwrap();
    let listed = ids(&table);
    assert_eq!(listed, vec![2, 3, 5, 6, 7, 8, 9, 11, 12]);
    assert!(listed.windows(2).all(|pair| pair[0] < pair[1]));
}

#[test]
fn insert_keeps_an_empty_title() {
    let mut table = TodoTable::new();
    assert_eq!(table.insert(String::new(), false), Ok(todo(1, "", false)));
}

#[test]
fn table_can_go_on_after_a_given_id() {
    let mut table = TodoTable::with_last_id(41);
    assert_eq!(table.select_all(), Vec::<Todo>::new());
    assert_eq!(table.insert("answer".to_string(), true), Ok(todo(42, "answer", true)));
}

#[test]
fn last_id_is_handed_out_and_then_insert_fails() {
    assert_eq!(MAX_ID, 2147483647);
    let mut table = TodoTable::with_last_id(MAX_ID - 1);
    assert_eq!(table.insert("last".to_string(), false), Ok(todo(2147483647, "last", false)));
    assert_eq!(
        table.insert("one too many".to_string(), false),
        Err(StoreError { message: "no id is left for a new todo".to_string() })
    );
    assert_eq!(table.select_all(), vec![todo(2147483647, "last", false)]);
}

#[test]
fn set_completed_changes_only_completed_of_that_row() {
    let mut table = TodoTable::new();
    table.insert("Buy milk".to_string(), false).unwrap();
    table.insert("Walk dog".to_string(), false).unwrap();
    table.insert("Pay rent".to_string(), true).unwrap();
    assert_eq!(table.set_completed(2, true), 1);
    assert_eq!(
        table.select_all(),
        vec![todo(1, "Buy milk", false), todo(2, "Walk dog", true), todo(3, "Pay rent", true)]
    );
    assert_eq!(table.set_completed(3, false), 1);
    assert_eq!(
        table.select_all(),
        vec![todo(1, "Buy milk", false), todo(2, "Walk dog", true), todo(3, "Pay rent", false)]
    );
}

#[test]
fn set_completed_to_the_same_value_still_counts_the_row() {
    let mut table = TodoTable::new();
    table.insert("a".to_string(), true).unwrap();
    assert_eq!(table.set_completed(1, true), 1);
    assert_eq!(table.select_all(), vec![todo(1, "a", true)]);
}

#[test]
fn set_completed_of_a_missing_id_touches_nothing() {
    let mut table = TodoTable::new();
    table.insert("a".to_string(), false).unwrap();
    assert_eq!(table.set_completed(999999, true), 0);
    assert_eq!(table.set_completed(0, true), 0);
    assert_eq!(table.set_completed(-1, true), 0);
    assert_eq!(table.select_all(), vec![todo(1, "a", false)]);
}

#[test]
fn delete_removes_the_row_and_no_other() {
    let mut table = TodoTable::new();
    table.insert("a".to_string(), false).unwrap();
    table.insert("b".to_string(), true).unwrap();
    table.insert("c".to_string(), false).unwrap();
    assert_eq!(table.delete(2), 1);
    assert_eq!(table.select_all(), vec![todo(1, "a", false), todo(3, "c", false)]);
    assert!(!ids(&table).contains(&2));
}

#[test]
fn delete_of_a_missing_id_touches_nothing() {
    let mut table = TodoTable::new();
    table.insert("a".to_string(), false).unwrap();
    assert_eq!(table.delete(999999), 0);
    assert_eq!(table.delete(i32::MIN), 0);
    assert_eq!(table.select_all(), vec![todo(1, "a", false)]);
}

#[test]
fn delete_twice_removes_once() {
    let mut table = TodoTable::new();
    table.insert("a".to_string(), false).unwrap();
    assert_eq!(table.delete(1), 1);
    assert_eq!(table.delete(1), 0);
    assert_eq!(table.select_all(), Vec::<Todo>::new());
}

#[test]
fn delete_of_first_and_last_row() {
    let mut table = TodoTable::new();
    for title in ["a", "b", "c"] {
        table.insert(title.to_string(), false).unwrap();
    }
    assert_eq!(table.delete(1), 1);
    assert_eq!(table.delete(3), 1);
    assert_eq!(table.select_all(), vec![todo(2, "b", false)]);
}

#[test]
fn update_and_delete_of_one_id_leave_the_same_table_in_either_order() {
    let mut first = TodoTable::new();
    let mut second = TodoTable::new();
    for table in [&mut first, &mut second] {
        table.insert("a".to_string(), false).unwrap();
        table.insert("b".to_string(), false).unwrap();
    }
    assert_eq!(first.set_completed(1, true), 1);
    assert_eq!(first.delete(1), 1);
    assert_eq!(second.delete(1), 1);
    assert_eq!(second.set_completed(1, true), 0);
    assert_eq!(first.select_all(), vec![todo(2, "b", false)]);
    assert_eq!(second.select_all(), first.select_all());
}

#[test]
fn select_all_hands_out_a_copy() {
    let mut table = TodoTable::new();
    table.insert("a".to_string(), false).unwrap();
    let mut rows = table.select_all();
    rows[0].title.push_str(" changed");
    rows.clear();
    assert_eq!(table.select_all(), vec![todo(1, "a", false)]);
}

#[test]
fn clone_of_a_todo_equals_it() {
    let first = todo(5, "copy me", true);
    assert_eq!(first.clone(), first);
}
