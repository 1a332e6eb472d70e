//! What holds of the table whatever statements reach it, stated over the
//! table as a mathematical value.
use crate::statement::StatementView;
use crate::table::{ascending, updated, with_id, without_id, TableView, MAX_ID};
use crate::todo::TodoView;
use vstd::prelude::*;

verus! {

/// The table after each of `statements` in turn, the first one first.
pub open spec fn run(table: TableView, statements: Seq<StatementView>) -> TableView
    decreases statements.len(),
{
    if statements.len() == 0 {
        table
    } else {
        run(table, statements.drop_last()).after(statements.last())
    }
}

/// The row that statement `k` of `statements`, an insert, adds to the table
/// and hands back.
pub open spec fn created(table: TableView, statements: Seq<StatementView>, k: int) -> TodoView
    recommends
        0 <= k < statements.len(),
        statements[k] is Insert,
{
    run(table, statements.take(k)).next_row(statements[k]->title, statements[k]->Insert_completed)
}

/// Rows picked from an ascending sequence are ascending, and each of them
/// stood in the sequence no earlier than it stands among the picked.
proof fn lemma_filter_ascending(rows: Seq<TodoView>, pick: spec_fn(TodoView) -> bool)
    requires
        ascending(rows),
    ensures
        ascending(rows.filter(pick)),
        forall|i: int|
            0 <= i < rows.filter(pick).len() ==> exists|k: int|
                i <= k < rows.len() && rows[k] == #[trigger] rows.filter(pick)[i],
    decreases rows.len(),
{
    reveal(Seq::filter);
    if rows.len() > 0 {
        let front = rows.drop_last();
        lemma_filter_ascending(front, pick);
        let picked = rows.filter(pick);
        let sub = front.filter(pick);
        assert forall|i: int| 0 <= i < picked.len() implies exists|k: int|
            i <= k < rows.len() && rows[k] == #[trigger] picked[i] by {
            if i < sub.len() {
                let k: int = choose|k: int| i <= k < front.len() && front[k] == sub[i];
                assert(rows[k] == picked[i]);
            } else {
                sub.lemma_filter_len(pick);
                front.lemma_filter_len(pick);
                assert(rows[rows.len() - 1] == picked[i]);
            }
        }
        assert forall|i: int, j: int| 0 <= i < j < picked.len() implies (#[trigger] picked[i]).id
            < (#[trigger] picked[j]).id by {
            if j < sub.len() {
                assert(sub[i].id < sub[j].id);
            } else {
                let k: int = choose|k: int| i <= k < front.len() && front[k] == sub[i];
                assert(rows[k].id < rows[rows.len() - 1].id);
            }
        }
    }
}

/// Picking from rows of which none is wanted gives nothing.
proof fn lemma_filter_none(rows: Seq<TodoView>, pick: spec_fn(TodoView) -> bool)
    requires
        forall|i: int| 0 <= i < rows.len() ==> !pick(#[trigger] rows[i]),
    ensures
        rows.filter(pick) == Seq::<TodoView>::empty(),
    decreases rows.len(),
{
    reveal(Seq::filter);
    if rows.len() > 0 {
        lemma_filter_none(rows.drop_last(), pick);
        assert(!pick(rows[rows.len() - 1]));
    }
}

/// Picking from rows of which each is wanted gives them all.
proof fn lemma_filter_every(rows: Seq<TodoView>, pick: spec_fn(TodoView) -> bool)
    requires
        forall|i: int| 0 <= i < rows.len() ==> pick(#[trigger] rows[i]),
    ensures
        rows.filter(pick) == rows,
    decreases rows.len(),
{
    reveal(Seq::filter);
    if rows.len() > 0 {
        lemma_filter_every(rows.drop_last(), pick);
        assert(pick(rows[rows.len() - 1]));
        assert(rows.drop_last().push(rows.last()) =~= rows);
    }
}

/// An update by id changes no id, so it does not change which rows a delete
/// by the same id keeps; and it leaves those rows as they were.
proof fn lemma_filter_updated(rows: Seq<TodoView>, id: int, completed: bool)
    ensures
        rows.map_values(updated(id, completed)).filter(without_id(id)) == rows.filter(
            without_id(id),
        ),
    decreases rows.len(),
{
    reveal(Seq::filter);
    let changed = rows.map_values(updated(id, completed));
    if rows.len() > 0 {
        lemma_filter_updated(rows.drop_last(), id, completed);
        assert(changed.drop_last() =~= rows.drop_last().map_values(updated(id, completed)));
        assert(changed.last() == updated(id, completed)(rows.last()));
    } else {
        assert(changed =~= rows);
    }
}

/// Among rows with ascending ids, an id is found once or not at all.
proof fn lemma_count_ascending(rows: Seq<TodoView>, id: int)
    requires
        ascending(rows),
    ensures
        rows.filter(with_id(id)).len() == (if exists|i: int|
            0 <= i < rows.len() && (#[trigger] rows[i]).id == id {
            1nat
        } else {
            0nat
        }),
    decreases rows.len(),
{
    reveal(Seq::filter);
    if rows.len() > 0 {
        let front = rows.drop_last();
        lemma_count_ascending(front, id);
        if rows.last().id == id {
            assert(rows[rows.len() - 1].id == id);
            assert forall|i: int| 0 <= i < front.len() implies (#[trigger] front[i]).id != id by {
                assert(rows[i].id < rows[rows.len() - 1].id);
            }
        } else {
            if exists|i: int| 0 <= i < front.len() && (#[trigger] front[i]).id == id {
                let i: int = choose|i: int| 0 <= i < front.len() && (#[trigger] front[i]).id == id;
                assert(rows[i].id == id);
            }
            if exists|i: int| 0 <= i < rows.len() && (#[trigger] rows[i]).id == id {
                let i: int = choose|i: int| 0 <= i < rows.len() && (#[trigger] rows[i]).id == id;
                assert(front[i].id == id);
            }
        }
    }
}

/// An insert leaves a table in order.
pub proof fn lemma_insert_wf(table: TableView, title: Seq<char>, completed: bool)
    requires
        table.wf(),
    ensures
        table.insert(title, completed).wf(),
{
}

/// An update by id leaves a table in order.
pub proof fn lemma_set_completed_wf(table: TableView, id: int, completed: bool)
    requires
        table.wf(),
    ensures
        table.set_completed(id, completed).wf(),
{
}

/// A delete by id leaves a table in order.
pub proof fn lemma_delete_wf(table: TableView, id: int)
    requires
        table.wf(),
    ensures
        table.delete(id).wf(),
{
    lemma_filter_ascending(table.rows, without_id(id));
    let kept = table.rows.filter(without_id(id));
    assert forall|i: int| 0 <= i < kept.len() implies (#[trigger] kept[i]).id
        <= table.last_id by {
        let k: int = choose|k: int| i <= k < table.rows.len() && table.rows[k] == kept[i];
        assert(table.rows[k].id <= table.last_id);
    }
}

/// Whatever statements reach a table, in whatever order, it stays in order:
/// a read of all rows lists them by ascending id, and no id comes twice.
pub proof fn lemma_listing_ascending(table: TableView, statements: Seq<StatementView>)
    requires
        table.wf(),
    ensures
        run(table, statements).wf(),
        ascending(run(table, statements).select_all()),
    decreases statements.len(),
{
    if statements.len() > 0 {
        let before = run(table, statements.drop_last());
        lemma_listing_ascending(table, statements.drop_last());
        match statements.last() {
            StatementView::SelectAll => {},
            StatementView::Insert { title, completed } => lemma_insert_wf(before, title, completed),
            StatementView::SetCompleted { completed, id } => lemma_set_completed_wf(
                before,
                id,
                completed,
            ),
            StatementView::Delete { id } => lemma_delete_wf(before, id),
        }
    }
}

/// While ids are left, an insert hands out an id that is above every id in
/// the table and above every id handed out before, and lists the new row
/// last, behind the rows that were there, which stay as they were.
pub proof fn lemma_insert_fresh(table: TableView, title: Seq<char>, completed: bool)
    requires
        table.wf(),
        !table.exhausted(),
    ensures
        table.next_row(title, completed).id > table.last_id,
        !table.has_id(table.next_row(title, completed).id),
        forall|i: int|
            0 <= i < table.rows.len() ==> (#[trigger] table.rows[i]).id < table.next_row(
                title,
                completed,
            ).id,
        table.insert(title, completed).select_all() == table.select_all().push(
            table.next_row(title, completed),
        ),
        table.insert(title, completed).last_id == table.next_row(title, completed).id,
{
}

/// No statement lowers the id handed out last, so no id is handed out
/// twice, not even that of a row that has been deleted since.
pub proof fn lemma_last_id_grows(table: TableView, statements: Seq<StatementView>, k: int)
    requires
        0 <= k <= statements.len(),
    ensures
        run(table, statements.take(k)).last_id <= run(table, statements).last_id,
    decreases statements.len(),
{
    if k < statements.len() {
        lemma_last_id_grows(table, statements.drop_last(), k);
        assert(statements.drop_last().take(k) =~= statements.take(k));
    } else {
        assert(statements.take(k) =~= statements);
    }
}

/// Of two inserts in a run of statements, whatever stands between them, the
/// later one hands out the higher id, as long as ids are left for it.
pub proof fn lemma_ids_increase(
    table: TableView,
    statements: Seq<StatementView>,
    a: int,
    b: int,
)
    requires
        0 <= a < b < statements.len(),
        statements[a] is Insert,
        statements[b] is Insert,
        !run(table, statements.take(b)).exhausted(),
    ensures
        created(table, statements, a).id < created(table, statements, b).id,
{
    let upto = statements.take(b);
    lemma_last_id_grows(table, upto, a + 1);
    assert(upto.take(a + 1) =~= statements.take(a + 1));
    assert(statements.take(a + 1).drop_last() =~= statements.take(a));
    assert(statements.take(a + 1).last() == statements[a]);
    lemma_last_id_grows(table, statements.take(a + 1), a);
    assert(statements.take(a + 1).take(a) =~= statements.take(a));
}

/// A run of inserts alone, with ids left for all of them, hands out the ids
/// that follow the last one, each one above the one before, and lists the
/// new rows in that order behind the rows that were there.
pub proof fn lemma_creates_listed(table: TableView, statements: Seq<StatementView>)
    requires
        table.wf(),
        forall|k: int| 0 <= k < statements.len() ==> #[trigger] statements[k] is Insert,
        table.last_id + statements.len() <= MAX_ID,
    ensures
        run(table, statements).wf(),
        run(table, statements).last_id == table.last_id + statements.len(),
        forall|k: int|
            0 <= k < statements.len() ==> (#[trigger] created(table, statements, k)).id
                == table.last_id + 1 + k,
        run(table, statements).select_all() == table.select_all() + Seq::new(
            statements.len(),
            |k: int| created(table, statements, k),
        ),
    decreases statements.len(),
{
    let news = Seq::new(statements.len(), |k: int| created(table, statements, k));
    if statements.len() > 0 {
        let front = statements.drop_last();
        let n: int = front.len() as int;
        lemma_creates_listed(table, front);
        assert(statements.take(n) =~= front);
        assert forall|k: int| 0 <= k < statements.len() implies (#[trigger] created(
            table,
            statements,
            k,
        )).id == table.last_id + 1 + k by {
            if k < n {
                assert(front.take(k) =~= statements.take(k));
                assert(created(table, front, k) == created(table, statements, k));
            }
        }
        let olds = Seq::new(front.len(), |k: int| created(table, front, k));
        assert forall|k: int| 0 <= k < n implies olds[k] == news[k] by {
            assert(front.take(k) =~= statements.take(k));
        }
        assert(run(table, statements).rows =~= table.rows + news);
    } else {
        assert(run(table, statements).rows =~= table.rows + news);
    }
}

/// After a delete by id a read of all rows shows no row with that id; the
/// rows with other ids are all still there, and no row is there that was
/// not.
pub proof fn lemma_deleted_absent(table: TableView, id: int)
    ensures
        !table.delete(id).has_id(id),
        forall|i: int|
            0 <= i < table.delete(id).select_all().len() ==> (#[trigger] table.delete(
                id,
            ).select_all()[i]).id != id,
        forall|row: TodoView|
            table.select_all().contains(row) && row.id != id ==> #[trigger] table.delete(
                id,
            ).select_all().contains(row),
        forall|row: TodoView| #[trigger]
            table.delete(id).select_all().contains(row) ==> table.select_all().contains(row)
                && row.id != id,
{
    let kept = table.rows.filter(without_id(id));
    assert forall|i: int| 0 <= i < kept.len() implies (#[trigger] kept[i]).id != id by {
        table.rows.lemma_filter_pred(without_id(id), i);
    }
    assert forall|row: TodoView| table.rows.contains(row) && row.id != id implies kept.contains(
        row,
    ) by {
        let i: int = choose|i: int| 0 <= i < table.rows.len() && table.rows[i] == row;
        table.rows.lemma_filter_contains(without_id(id), i);
    }
    assert forall|row: TodoView| kept.contains(row) implies table.rows.contains(row) && row.id
        != id by {
        table.rows.lemma_filter_contains_rev(without_id(id), row);
        let i: int = choose|i: int| 0 <= i < kept.len() && kept[i] == row;
        assert(kept[i].id != id);
    }
}

/// An update by id changes `completed` on the rows with that id and nothing
/// else: a read of all rows shows every row at its place, with its id and
/// its title, and a row with another id with its `completed` too.
pub proof fn lemma_update_keeps_titles(table: TableView, id: int, completed: bool)
    ensures
        table.set_completed(id, completed).last_id == table.last_id,
        table.set_completed(id, completed).select_all().len() == table.select_all().len(),
        forall|i: int|
            #![trigger table.set_completed(id, completed).select_all()[i]]
            0 <= i < table.select_all().len() ==> {
                let before = table.select_all()[i];
                let after = table.set_completed(id, completed).select_all()[i];
                &&& after.id == before.id
                &&& after.title == before.title
                &&& after.completed == if before.id == id {
                    completed
                } else {
                    before.completed
                }
            },
{
}

/// An update and a delete of one id, each carried out whole, leave the same
/// table whichever comes first: the row is gone, the other rows are as they
/// were, and the table is in order. With the update alone the row would
/// stand updated; there is no third state.
pub proof fn lemma_update_delete_either_order(table: TableView, id: int, completed: bool)
    ensures
        table.set_completed(id, completed).delete(id) == table.delete(id),
        table.delete(id).set_completed(id, completed) == table.delete(id),
        !table.delete(id).has_id(id),
        table.wf() ==> table.delete(id).wf(),
{
    lemma_filter_updated(table.rows, id, completed);
    lemma_deleted_absent(table, id);
    let kept = table.rows.filter(without_id(id));
    assert(kept.map_values(updated(id, completed)) =~= kept);
    if table.wf() {
        lemma_delete_wf(table, id);
    }
}

/// In a table in order, an id is on one row or on none: an update or a
/// delete by id touches one row if the id is there and none if it is not.
pub proof fn lemma_count(table: TableView, id: int)
    requires
        table.wf(),
    ensures
        table.count(id) == if table.has_id(id) {
            1nat
        } else {
            0nat
        },
{
    lemma_count_ascending(table.rows, id);
}

/// An update or a delete by an id that no row has touches no row and
/// leaves the table as it was.
pub proof fn lemma_missing_id_untouched(table: TableView, id: int, completed: bool)
    requires
        !table.has_id(id),
    ensures
        table.count(id) == 0,
        table.set_completed(id, completed) == table,
        table.delete(id) == table,
{
    lemma_filter_none(table.rows, with_id(id));
    lemma_filter_every(table.rows, without_id(id));
    assert(table.rows.map_values(updated(id, completed)) =~= table.rows);
}

} // verus!
