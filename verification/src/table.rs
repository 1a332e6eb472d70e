//! What the statements mean: the `todos` table as a mathematical value, the
//! effect of each statement on it, and a table held in memory that behaves
//! so.
use crate::laws::lemma_delete_wf;
use crate::statement::{StatementView, StoreError};
use crate::todo::{Todo, TodoView};
use vstd::prelude::*;
use vstd::string::StringExecFns;

verus! {

/// The largest id that the store can hand out.
pub const MAX_ID: i32 = 0x7fff_ffff;

/// Rows with this id.
pub open spec fn with_id(id: int) -> spec_fn(TodoView) -> bool {
    |row: TodoView| row.id == id
}

/// Rows with any other id.
pub open spec fn without_id(id: int) -> spec_fn(TodoView) -> bool {
    |row: TodoView| row.id != id
}

/// A row after an update by id: `completed` is set if the id is the row's,
/// and the row is as it was if not.
pub open spec fn updated(id: int, completed: bool) -> spec_fn(TodoView) -> TodoView {
    |row: TodoView|
        if row.id == id {
            TodoView { completed, ..row }
        } else {
            row
        }
}

/// The ids of `rows` ascend, so that none comes twice.
pub open spec fn ascending(rows: Seq<TodoView>) -> bool {
    forall|i: int, j: int|
        0 <= i < j < rows.len() ==> (#[trigger] rows[i]).id < (#[trigger] rows[j]).id
}

/// The `todos` table as a mathematical value.
pub struct TableView {
    /// The rows, in ascending order of id.
    pub rows: Seq<TodoView>,
    /// The id handed out last. The next insert hands out the one after it.
    pub last_id: int,
}

impl TableView {
    /// No two rows share an id, the rows stand in ascending order of id, and
    /// every id is one that was handed out.
    pub open spec fn wf(self) -> bool {
        &&& self.last_id <= MAX_ID
        &&& forall|i: int|
            0 <= i < self.rows.len() ==> (#[trigger] self.rows[i]).id <= self.last_id
        &&& ascending(self.rows)
    }

    /// The table before the first insert, which hands out the id 1.
    pub open spec fn empty() -> TableView {
        TableView { rows: Seq::empty(), last_id: 0 }
    }

    /// What a read of all rows hands back: every row, in ascending order of
    /// id.
    pub open spec fn select_all(self) -> Seq<TodoView> {
        self.rows
    }

    /// Whether some row has this id.
    pub open spec fn has_id(self, id: int) -> bool {
        exists|i: int| 0 <= i < self.rows.len() && (#[trigger] self.rows[i]).id == id
    }

    /// How many rows have this id: what an update or a delete by id reports
    /// as the number of rows it touched.
    pub open spec fn count(self, id: int) -> nat {
        self.rows.filter(with_id(id)).len()
    }

    /// Whether every id has been handed out, so that an insert fails.
    pub open spec fn exhausted(self) -> bool {
        self.last_id >= MAX_ID
    }

    /// The row that an insert adds while ids are left.
    pub open spec fn next_row(self, title: Seq<char>, completed: bool) -> TodoView {
        TodoView { id: self.last_id + 1, title, completed }
    }

    /// The table after an insert: one more row, under the next id, unless no
    /// id is left.
    pub open spec fn insert(self, title: Seq<char>, completed: bool) -> TableView {
        if self.exhausted() {
            self
        } else {
            TableView {
                rows: self.rows.push(self.next_row(title, completed)),
                last_id: self.last_id + 1,
            }
        }
    }

    /// The table after an update by id: `completed` is set on the rows with
    /// this id, and nothing else changes.
    pub open spec fn set_completed(self, id: int, completed: bool) -> TableView {
        TableView { rows: self.rows.map_values(updated(id, completed)), ..self }
    }

    /// The table after a delete by id: the rows with this id are gone, the
    /// others stay as they stood.
    pub open spec fn delete(self, id: int) -> TableView {
        TableView { rows: self.rows.filter(without_id(id)), ..self }
    }

    /// The table after a statement.
    pub open spec fn after(self, statement: StatementView) -> TableView {
        match statement {
            StatementView::SelectAll => self,
            StatementView::Insert { title, completed } => self.insert(title, completed),
            StatementView::SetCompleted { completed, id } => self.set_completed(id, completed),
            StatementView::Delete { id } => self.delete(id),
        }
    }
}

/// What the table in memory says when no id is left for a new row.
pub open spec fn ids_exhausted() -> Seq<char> {
    "no id is left for a new todo"@
}

/// A `todos` table held in memory.
pub struct TodoTable {
    rows: Vec<Todo>,
    last_id: i32,
}

impl View for TodoTable {
    type V = TableView;

    closed spec fn view(&self) -> TableView {
        TableView { rows: self.rows.deep_view(), last_id: self.last_id as int }
    }
}

impl TodoTable {
    /// An empty table.
    pub fn new() -> (table: TodoTable)
        ensures
            table@ == TableView::empty(),
            table@.wf(),
    {
        let table = TodoTable { rows: Vec::new(), last_id: 0 };
        assert(table@.rows =~= Seq::empty());
        table
    }

    /// An empty table whose ids go on after `last_id`.
    pub fn with_last_id(last_id: i32) -> (table: TodoTable)
        ensures
            table@ == (TableView { rows: Seq::empty(), last_id: last_id as int }),
            table@.wf(),
    {
        let table = TodoTable { rows: Vec::new(), last_id };
        assert(table@.rows =~= Seq::empty());
        table
    }

    /// Every row, in ascending order of id.
    pub fn select_all(&self) -> (rows: Vec<Todo>)
        ensures
            rows.deep_view() == self@.select_all(),
            self@.wf() ==> ascending(rows.deep_view()),
    {
        let rows = self.rows.clone();
        assert(rows.deep_view() =~= self.rows.deep_view());
        rows
    }

    /// Adds a row under the next id and hands it back. Fails, and changes
    /// nothing, when no id is left.
    pub fn insert(&mut self, title: String, completed: bool) -> (outcome: Result<Todo, StoreError>)
        requires
            old(self)@.wf(),
        ensures
            final(self)@ == old(self)@.insert(title@, completed),
            final(self)@.wf(),
            match outcome {
                Ok(todo) => !old(self)@.exhausted() && todo@ == old(self)@.next_row(
                    title@,
                    completed,
                ),
                Err(error) => old(self)@.exhausted() && error@ == ids_exhausted(),
            },
    {
        if self.last_id >= MAX_ID {
            return Err(StoreError { message: String::from_str("no id is left for a new todo") });
        }
        let id: i32 = self.last_id + 1;
        let todo = Todo { id, title, completed };
        self.last_id = id;
        self.rows.push(todo.clone());
        assert(self@.rows =~= old(self)@.rows.push(todo@));
        Ok(todo)
    }

    /// Sets `completed` on the rows with this id and says how many there
    /// were. A table without such a row stays as it is.
    pub fn set_completed(&mut self, id: i32, completed: bool) -> (affected: u64)
        requires
            old(self)@.wf(),
        ensures
            final(self)@ == old(self)@.set_completed(id as int, completed),
            final(self)@.wf(),
            affected == old(self)@.count(id as int),
    {
        let ghost before = self@.rows;
        let ghost change = updated(id as int, completed);
        let mut affected: u64 = 0;
        let mut i: usize = 0;
        assert(before.take(0) =~= Seq::empty());
        assert(before.take(0).filter(with_id(id as int)) =~= Seq::empty()) by {
            reveal(Seq::filter);
        }
        while i < self.rows.len()
            invariant
                i <= self.rows.len() == before.len(),
                self.last_id == old(self).last_id,
                change == updated(id as int, completed),
                self@.rows == before.take(i as int).map_values(change) + before.skip(i as int),
                affected == before.take(i as int).filter(with_id(id as int)).len(),
                affected <= i,
            decreases self.rows.len() - i,
        {
            let ghost current = self@.rows;
            assert(current[i as int] == before[i as int]);
            assert(before.take(i + 1) =~= before.take(i as int).push(before[i as int]));
            proof {
                before.take(i as int).lemma_filter_push(before[i as int], with_id(id as int));
            }
            if self.rows[i].id == id {
                self.rows[i].completed = completed;
                affected = affected + 1;
            }
            assert forall|k: int| 0 <= k < before.len() implies #[trigger] self@.rows[k] == (
            before.take(i + 1).map_values(change) + before.skip(i + 1))[k] by {
                if k < i {
                    assert(current[k] == before.take(i as int).map_values(change)[k]);
                } else if k > i {
                    assert(current[k] == before.skip(i as int)[k - i]);
                }
            }
            i = i + 1;
        }
        assert(before.take(i as int) =~= before);
        affected
    }

    /// Removes the rows with this id and says how many there were. A table
    /// without such a row stays as it is.
    pub fn delete(&mut self, id: i32) -> (affected: u64)
        requires
            old(self)@.wf(),
        ensures
            final(self)@ == old(self)@.delete(id as int),
            final(self)@.wf(),
            affected == old(self)@.count(id as int),
    {
        let ghost before = self@.rows;
        let mut affected: u64 = 0;
        let mut i: usize = 0;
        let ghost mut seen: int = 0;
        assert(before.take(0) =~= Seq::empty());
        assert(before.take(0).filter(with_id(id as int)) =~= Seq::empty()
            && before.take(0).filter(without_id(id as int)) =~= Seq::empty()) by {
            reveal(Seq::filter);
        }
        assert(before.skip(0) =~= before);
        assert(before.len() == self.rows.len());
        while i < self.rows.len()
            invariant
                0 <= seen <= before.len() <= usize::MAX,
                seen == i + affected,
                self.rows.len() == i + before.len() - seen,
                self.last_id == old(self).last_id,
                self@.rows == before.take(seen).filter(without_id(id as int)) + before.skip(seen),
                i == before.take(seen).filter(without_id(id as int)).len(),
                affected == before.take(seen).filter(with_id(id as int)).len(),
            decreases self.rows.len() - i,
        {
            let ghost current = self@.rows;
            let ghost stored = self.rows@;
            let ghost kept = before.take(seen).filter(without_id(id as int));
            assert(current[i as int] == before.skip(seen)[0]);
            assert(before.take(seen + 1) =~= before.take(seen).push(before[seen]));
            proof {
                before.take(seen).lemma_filter_push(before[seen], with_id(id as int));
                before.take(seen).lemma_filter_push(before[seen], without_id(id as int));
            }
            if self.rows[i].id == id {
                self.rows.remove(i);
                affected = affected + 1;
                assert forall|k: int| 0 <= k < self@.rows.len() implies #[trigger] self@.rows[k]
                    == (kept + before.skip(seen + 1))[k] by {
                    if k < i {
                        assert(self.rows@[k] == stored[k]);
                        assert(current[k] == stored[k]@);
                    } else {
                        assert(self.rows@[k] == stored[k + 1]);
                        assert(current[k + 1] == stored[k + 1]@);
                        assert(current[k + 1] == before.skip(seen)[k + 1 - i]);
                    }
                }
            } else {
                i = i + 1;
                assert(self@.rows =~= kept.push(before[seen]) + before.skip(seen + 1));
            }
            proof {
                seen = seen + 1;
            }
        }
        assert(before.take(seen) =~= before);
        proof {
            lemma_delete_wf(old(self)@, id as int);
        }
        affected
    }
}

} // verus!
