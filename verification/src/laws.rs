//! What holds of the operations, whatever the database and the query.

use vstd::prelude::*;
use crate::database::{
    spec_delete,
    spec_insert,
    spec_matching,
    spec_select,
    spec_update,
    spec_update_all,
    wf_tables,
};
use crate::expr::{
    Arithmetic,
    apply_binary,
    eval_from,
    eval_step,
    float_eq,
    holds,
    is_bare_leaf,
    is_trivial,
    spec_compute,
    spec_evaluate,
    ExprView,
};
use crate::query_error::QueryError;
use crate::table::{all_rows, matching_rows, types_of, update_cells, TableView};
use crate::values::{ascending_below, drop_rows, lemma_drop_rows_keeps, Types, ValueView};

verus! {

/// Two scalars of one type are equal, as the `Eq` operator sees it.
pub open spec fn scalar_eq(a: ValueView, b: ValueView) -> bool {
    match (a, b) {
        (ValueView::Int(x), ValueView::Int(y)) => x == y,
        (ValueView::Float(x), ValueView::Float(y)) => float_eq(x, y),
        (ValueView::Str(x), ValueView::Str(y)) => x == y,
        (ValueView::Bool(x), ValueView::Bool(y)) => x == y,
        _ => false,
    }
}

/// The condition "the cell equals `v`".
pub open spec fn equals_condition(v: ValueView) -> Seq<ExprView> {
    seq![ExprView::Cell, ExprView::Value(v), ExprView::Eq]
}

/// The program that gives `k` whatever the cell holds.
pub open spec fn constant_program(k: ValueView) -> Seq<ExprView> {
    seq![ExprView::Value(k)]
}

/// In a well-formed table every column has the type that the schema gives
/// it, and holds cells of that type only.
pub proof fn law_schema(table: TableView, c: int, r: int)
    requires
        table.wf(),
        0 <= c < table.columns.len(),
        0 <= r < table.rows(),
    ensures
        table.columns[c].tag == table.column_types[c],
        table.columns[c].cells[r].types() == table.column_types[c],
{
    assert(table.columns[c].cells.len() == table.columns[0].cells.len());
    assert(table.columns[c].homogeneous());
}

/// In a well-formed table every column has as many cells as the table has
/// rows.
pub proof fn law_rectangular(table: TableView, c: int)
    requires
        table.wf(),
        0 <= c < table.columns.len(),
    ensures
        table.columns[c].cells.len() == table.rows(),
{
    assert(table.columns[c].cells.len() == table.columns[0].cells.len());
}

/// Operands of two different types are a `TypeMismatch` under every binary
/// operator, on the stack as well.
pub proof fn law_operand_type_mismatch(
    op: ExprView,
    left: ValueView,
    right: ValueView,
    stack: Seq<ValueView>,
    cell: ValueView,
    arith: spec_fn(Arithmetic, u32, u32) -> u32,
)
    requires
        left.types() != right.types(),
        !op.is_leaf(),
        !(op is Not),
    ensures
        apply_binary(
            op,
            left,
            right,
            arith,
        ) == Err::<ValueView, QueryError>(QueryError::TypeMismatch),
        eval_step(
            stack.push(left).push(right),
            op,
            cell,
            arith,
        ) == Err::<Seq<ValueView>, QueryError>(
            QueryError::TypeMismatch,
        ),
{
}

/// An empty condition is `NoOperation` for select, update and delete on a
/// column that exists.
pub proof fn law_empty_condition(
    db: Seq<TableView>,
    table: int,
    column: int,
    targets: Seq<(int, Seq<ExprView>)>,
    arith: spec_fn(Arithmetic, u32, u32) -> u32,
)
    requires
        0 <= table < db.len(),
        0 <= column < db[table].columns.len(),
    ensures
        spec_select(db, table, column, Seq::empty(), arith) == Err::<TableView, QueryError>(
            QueryError::NoOperation,
        ),
        spec_update(
            db,
            table,
            column,
            targets,
            Seq::empty(),
            arith,
        ) == Err::<Seq<TableView>, QueryError>(
            QueryError::NoOperation,
        ),
        spec_delete(db, table, column, Seq::empty(), arith) == Err::<Seq<TableView>, QueryError>(
            QueryError::NoOperation,
        ),
{
}

/// A bare leaf evaluates to `NoOperation` as a top-level expression, and is
/// `NoOperation` as the condition of select, update and delete on a column
/// that exists.
pub proof fn law_bare_leaf_condition(
    db: Seq<TableView>,
    table: int,
    column: int,
    targets: Seq<(int, Seq<ExprView>)>,
    leaf: ExprView,
    cell: ValueView,
    arith: spec_fn(Arithmetic, u32, u32) -> u32,
)
    requires
        0 <= table < db.len(),
        0 <= column < db[table].columns.len(),
        leaf.is_leaf(),
    ensures
        spec_evaluate(
            seq![leaf],
            cell,
            arith,
        ) == Err::<ValueView, QueryError>(QueryError::NoOperation),
        spec_select(db, table, column, seq![leaf], arith) == Err::<TableView, QueryError>(
            QueryError::NoOperation,
        ),
        spec_update(
            db,
            table,
            column,
            targets,
            seq![leaf],
            arith,
        ) == Err::<Seq<TableView>, QueryError>(
            QueryError::NoOperation,
        ),
        spec_delete(db, table, column, seq![leaf], arith) == Err::<Seq<TableView>, QueryError>(
            QueryError::NoOperation,
        ),
{
    assert(is_bare_leaf(seq![leaf]));
}

/// An insert with another number of values than the table has columns is a
/// `SizeMismatch`; with the right number, but other types than the schema's,
/// it is a `TypeMismatch`.
pub proof fn law_insert_rejects(db: Seq<TableView>, table: int, values: Seq<ValueView>)
    requires
        0 <= table < db.len(),
    ensures
        values.len() != db[table].columns.len() ==> spec_insert(db, table, values) == Err::<
            Seq<TableView>,
            QueryError,
        >(QueryError::SizeMismatch),
        values.len() == db[table].columns.len() && types_of(values) != db[table].column_types
            ==> spec_insert(db, table, values) == Err::<Seq<TableView>, QueryError>(
            QueryError::TypeMismatch,
        ),
        values.len() == db[table].columns.len() && types_of(values) == db[table].column_types
            ==> spec_insert(db, table, values) is Ok,
{
}

/// After an insert that succeeds the database is well-formed, the schema is
/// the same, and every column of the table has one cell more: the value
/// given for it.
pub proof fn law_insert_grows(db: Seq<TableView>, table: int, values: Seq<ValueView>)
    requires
        wf_tables(db),
        spec_insert(db, table, values) is Ok,
    ensures
        ({
            let next = spec_insert(db, table, values)->Ok_0;
            &&& wf_tables(next)
            &&& next.len() == db.len()
            &&& next[table].column_types == db[table].column_types
            &&& forall|c: int|
                0 <= c < db[table].columns.len() ==> (#[trigger] next[table].columns[c]).cells
                    == db[table].columns[c].cells.push(values[c])
            &&& db[table].columns.len() > 0 ==> next[table].rows() == db[table].rows() + 1
            &&& forall|t: int| 0 <= t < db.len() && t != table ==> next[t] == db[t]
        }),
{
    let before = db[table];
    let after = before.with_row(values);
    assert(before.wf());
    assert forall|c: int| 0 <= c < after.columns.len() implies (#[trigger] after.columns[c]).homogeneous() by {
        assert(before.columns[c].homogeneous());
        assert(types_of(values)[c] == before.column_types[c]);
    }
    assert forall|c: int, d: int|
        0 <= c < after.columns.len() && 0 <= d < after.columns.len() implies (
    #[trigger] after.columns[c]).cells.len() == (#[trigger] after.columns[d]).cells.len() by {
        assert(before.columns[c].cells.len() == before.columns[d].cells.len());
    }
    assert(after.wf());
}

/// The i-th row of a projection is the row of the table at the i-th of the
/// kept positions, column for column.
pub proof fn law_projection_faithful(table: TableView, rows: Seq<int>, i: int)
    requires
        0 <= i < rows.len(),
    ensures
        table.project(rows).row(i) == table.row(rows[i]),
        table.project(rows).column_types == table.column_types,
{
    assert(table.project(rows).row(i) =~= table.row(rows[i]));
}

/// A search that succeeds has evaluated every row, and kept exactly the rows
/// on which the condition holds.
pub proof fn lemma_matching_rows_members(
    cells: Seq<ValueView>,
    condition: Seq<ExprView>,
    upto: int,
    arith: spec_fn(Arithmetic, u32, u32) -> u32,
)
    requires
        matching_rows(cells, condition, upto, arith) is Ok,
    ensures
        forall|r: int|
            0 <= r < upto ==> (#[trigger] spec_evaluate(condition, cells[r], arith)) is Ok,
        forall|r: int|
            0 <= r < upto ==> (matching_rows(
                cells,
                condition,
                upto,
                arith,
            )->Ok_0.contains(r) <==> holds(
                condition,
                #[trigger] cells[r],
                arith,
            )),
        forall|r: int|
            matching_rows(cells, condition, upto, arith)->Ok_0.contains(r) ==> 0 <= r < upto,
    decreases upto,
{
    if upto > 0 {
        lemma_matching_rows_members(cells, condition, upto - 1, arith);
        let before = matching_rows(cells, condition, upto - 1, arith)->Ok_0;
        let after = matching_rows(cells, condition, upto, arith)->Ok_0;
        if holds(condition, cells[upto - 1], arith) {
            assert(after == before.push(upto - 1));
            assert(after[before.len() as int] == upto - 1);
            assert forall|r: int| after.contains(r) <==> (before.contains(r) || r == upto - 1) by {
                if before.contains(r) {
                    let i = choose|i: int| 0 <= i < before.len() && before[i] == r;
                    assert(after[i] == r);
                }
            }
        } else {
            assert(after == before);
        }
    }
}

/// Where every row evaluates, and none to true, the search keeps no row.
pub proof fn lemma_matching_rows_none(
    cells: Seq<ValueView>,
    condition: Seq<ExprView>,
    upto: int,
    arith: spec_fn(Arithmetic, u32, u32) -> u32,
)
    requires
        forall|r: int|
            0 <= r < upto ==> (#[trigger] spec_evaluate(
                condition,
                cells[r],
                arith,
            )) is Ok && !holds(
                condition,
                cells[r],
                arith,
            ),
    ensures
        matching_rows(cells, condition, upto, arith) == Ok::<Seq<int>, QueryError>(Seq::empty()),
    decreases upto,
{
    if upto > 0 {
        lemma_matching_rows_none(cells, condition, upto - 1, arith);
        assert(spec_evaluate(condition, cells[upto - 1], arith) is Ok);
    }
}

/// Updating rows of a column keeps its length and the type of its cells.
pub proof fn lemma_update_cells_shape(
    cells: Seq<ValueView>,
    tag: Types,
    rows: Seq<int>,
    value: Seq<ExprView>,
    at: int,
    arith: spec_fn(Arithmetic, u32, u32) -> u32,
)
    requires
        0 <= at,
        forall|i: int| 0 <= i < rows.len() ==> 0 <= #[trigger] rows[i] < cells.len(),
        forall|r: int| 0 <= r < cells.len() ==> (#[trigger] cells[r]).types() == tag,
        update_cells(cells, tag, rows, value, at, arith) is Ok,
    ensures
        update_cells(cells, tag, rows, value, at, arith)->Ok_0.len() == cells.len(),
        forall|r: int|
            0 <= r < cells.len() ==> (#[trigger] update_cells(
                cells,
                tag,
                rows,
                value,
                at,
                arith,
            )->Ok_0[r]).types() == tag,
    decreases rows.len() - at,
{
    if at < rows.len() {
        let v = spec_compute(value, cells[rows[at]], arith)->Ok_0;
        lemma_update_cells_shape(cells.update(rows[at], v), tag, rows, value, at + 1, arith);
    }
}

/// Applying targets to rows of a well-formed table gives a well-formed table
/// of the same schema and the same number of rows.
pub proof fn lemma_update_shape(
    table: TableView,
    rows: Seq<int>,
    targets: Seq<(int, Seq<ExprView>)>,
    at: int,
    arith: spec_fn(Arithmetic, u32, u32) -> u32,
)
    requires
        0 <= at,
        table.wf(),
        forall|i: int| 0 <= i < rows.len() ==> 0 <= #[trigger] rows[i] < table.rows(),
        table.update(rows, targets, at, arith) is Ok,
    ensures
        table.update(rows, targets, at, arith)->Ok_0.wf(),
        table.update(rows, targets, at, arith)->Ok_0.column_types == table.column_types,
        table.update(rows, targets, at, arith)->Ok_0.columns.len() == table.columns.len(),
        table.update(rows, targets, at, arith)->Ok_0.rows() == table.rows(),
    decreases targets.len() - at,
{
    if at < targets.len() {
        let (c, value) = targets[at];
        if c < 0 || c >= table.columns.len() {
            lemma_update_shape(table, rows, targets, at + 1, arith);
        } else {
            let column = table.columns[c];
            assert(column.cells.len() == table.columns[0].cells.len());
            assert(column.homogeneous());
            lemma_update_cells_shape(column.cells, column.tag, rows, value, 0, arith);
            let cells = update_cells(column.cells, column.tag, rows, value, 0, arith)->Ok_0;
            let next = table.with_cells(c, cells);
            assert forall|d: int| 0 <= d < next.columns.len() implies (#[trigger] next.columns[d]).homogeneous() by {
                if d != c {
                    assert(table.columns[d].homogeneous());
                }
            }
            assert forall|d: int, e: int|
                0 <= d < next.columns.len() && 0 <= e < next.columns.len() implies (
            #[trigger] next.columns[d]).cells.len() == (#[trigger] next.columns[e]).cells.len() by {
                assert(table.columns[d].cells.len() == table.columns[e].cells.len());
                assert(table.columns[d].cells.len() == table.columns[c].cells.len());
            }
            assert(next.wf());
            lemma_update_shape(next, rows, targets, at + 1, arith);
        }
    }
}

/// After an update that succeeds the database is well-formed, and the
/// table has the schema and the number of rows that it had.
pub proof fn law_update_keeps_shape(
    db: Seq<TableView>,
    table: int,
    condition_column: int,
    targets: Seq<(int, Seq<ExprView>)>,
    condition: Seq<ExprView>,
    arith: spec_fn(Arithmetic, u32, u32) -> u32,
)
    requires
        wf_tables(db),
        spec_update(db, table, condition_column, targets, condition, arith) is Ok,
    ensures
        ({
            let next = spec_update(db, table, condition_column, targets, condition, arith)->Ok_0;
            &&& wf_tables(next)
            &&& next.len() == db.len()
            &&& next[table].column_types == db[table].column_types
            &&& next[table].rows() == db[table].rows()
            &&& forall|t: int| 0 <= t < db.len() && t != table ==> next[t] == db[t]
        }),
{
    let found = db[table];
    assert(found.wf());
    let cells = found.columns[condition_column].cells;
    assert(cells.len() == found.columns[0].cells.len());
    crate::table::lemma_matching_rows_ascending(cells, condition, cells.len() as int, arith);
    let rows = spec_matching(db, table, condition_column, condition, arith)->Ok_0;
    lemma_update_shape(found, rows, targets, 0, arith);
}

/// After an update of all rows that succeeds the database is well-formed,
/// and the table has the schema and the number of rows that it had.
pub proof fn law_update_all_keeps_shape(
    db: Seq<TableView>,
    table: int,
    targets: Seq<(int, Seq<ExprView>)>,
    arith: spec_fn(Arithmetic, u32, u32) -> u32,
)
    requires
        wf_tables(db),
        spec_update_all(db, table, targets, arith) is Ok,
    ensures
        ({
            let next = spec_update_all(db, table, targets, arith)->Ok_0;
            &&& wf_tables(next)
            &&& next.len() == db.len()
            &&& next[table].column_types == db[table].column_types
            &&& next[table].rows() == db[table].rows()
            &&& forall|t: int| 0 <= t < db.len() && t != table ==> next[t] == db[t]
        }),
{
    let found = db[table];
    assert(found.wf());
    lemma_update_shape(found, all_rows(found.rows() as int), targets, 0, arith);
}

/// After a delete that succeeds the database is well-formed, the table has
/// the schema that it had, and as many rows fewer as satisfied the
/// condition.
pub proof fn law_delete_shrinks(
    db: Seq<TableView>,
    table: int,
    column: int,
    condition: Seq<ExprView>,
    arith: spec_fn(Arithmetic, u32, u32) -> u32,
)
    requires
        wf_tables(db),
        spec_delete(db, table, column, condition, arith) is Ok,
    ensures
        ({
            let next = spec_delete(db, table, column, condition, arith)->Ok_0;
            let rows = spec_matching(db, table, column, condition, arith)->Ok_0;
            &&& wf_tables(next)
            &&& next.len() == db.len()
            &&& next[table].column_types == db[table].column_types
            &&& next[table].rows() == db[table].rows() - rows.len()
            &&& forall|r: int|
                0 <= r < db[table].rows() ==> (rows.contains(r) <==> holds(
                    condition,
                    #[trigger] db[table].columns[column].cells[r],
                    arith,
                ))
            &&& forall|t: int| 0 <= t < db.len() && t != table ==> next[t] == db[t]
        }),
{
    let found = db[table];
    assert(found.wf());
    let cells = found.columns[column].cells;
    assert(cells.len() == found.columns[0].cells.len());
    let rows = spec_matching(db, table, column, condition, arith)->Ok_0;
    crate::table::lemma_matching_rows_ascending(cells, condition, cells.len() as int, arith);
    lemma_matching_rows_members(cells, condition, cells.len() as int, arith);
    let after = found.without(rows);
    assert forall|c: int| 0 <= c < after.columns.len() implies (#[trigger] after.columns[c]).homogeneous()
        && after.columns[c].cells.len() == found.rows() - rows.len() by {
        let source = found.columns[c];
        assert(source.homogeneous());
        assert(source.cells.len() == found.columns[0].cells.len());
        lemma_drop_rows_keeps(source.cells, rows, |v: ValueView| v.types() == source.tag);
    }
    assert(after.wf());
}

/// Where every row evaluates, the search succeeds.
pub proof fn lemma_matching_rows_total(
    cells: Seq<ValueView>,
    condition: Seq<ExprView>,
    upto: int,
    arith: spec_fn(Arithmetic, u32, u32) -> u32,
)
    requires
        forall|r: int| 0 <= r < upto ==> (#[trigger] spec_evaluate(
            condition,
            cells[r],
            arith,
        )) is Ok,
    ensures
        matching_rows(cells, condition, upto, arith) is Ok,
    decreases upto,
{
    if upto > 0 {
        lemma_matching_rows_total(cells, condition, upto - 1, arith);
        assert(spec_evaluate(condition, cells[upto - 1], arith) is Ok);
    }
}

/// On a cell of the type of `v`, the condition "the cell equals `v`"
/// evaluates to whether it does.
pub proof fn lemma_equals_condition(
    cell: ValueView,
    v: ValueView,
    arith: spec_fn(Arithmetic, u32, u32) -> u32,
)
    requires
        cell.types() == v.types(),
    ensures
        spec_evaluate(equals_condition(v), cell, arith) == Ok::<ValueView, QueryError>(
            ValueView::Bool(scalar_eq(cell, v)),
        ),
        holds(equals_condition(v), cell, arith) <==> scalar_eq(cell, v),
{
    reveal_with_fuel(eval_from, 4);
    let program = equals_condition(v);
    let none = Seq::<ValueView>::empty();
    let one = none.push(cell);
    let two = one.push(v);
    let answer = ValueView::Bool(scalar_eq(cell, v));
    assert(!is_trivial(program));
    assert(eval_step(none, program[0], cell, arith) == Ok::<Seq<ValueView>, QueryError>(one));
    assert(eval_step(one, program[1], cell, arith) == Ok::<Seq<ValueView>, QueryError>(two));
    assert(apply_binary(ExprView::Eq, cell, v, arith) == Ok::<ValueView, QueryError>(answer));
    assert(two[two.len() - 2] == cell && two[two.len() - 1] == v);
    let last = two.drop_last().drop_last().push(answer);
    assert(eval_step(two, program[2], cell, arith) == Ok::<Seq<ValueView>, QueryError>(last));
    assert(last.len() == 1 && last[0] == answer);
    assert(eval_from(program, cell, 3, last, arith) == Ok::<Seq<ValueView>, QueryError>(last));
    assert(eval_from(program, cell, 0, none, arith) == Ok::<Seq<ValueView>, QueryError>(last));
}

/// A select on "the cell equals `v`", on a column of the type of `v`,
/// returns exactly the rows whose cell in that column equals `v`, in the
/// table's order.
pub proof fn law_select_equals(
    db: Seq<TableView>,
    table: int,
    column: int,
    v: ValueView,
    arith: spec_fn(Arithmetic, u32, u32) -> u32,
)
    requires
        wf_tables(db),
        0 <= table < db.len(),
        0 <= column < db[table].columns.len(),
        db[table].columns[column].tag == v.types(),
    ensures
        spec_matching(db, table, column, equals_condition(v), arith) is Ok,
        ({
            let rows = spec_matching(db, table, column, equals_condition(v), arith)->Ok_0;
            &&& spec_select(
                db,
                table,
                column,
                equals_condition(v),
                arith,
            ) == Ok::<TableView, QueryError>(
                db[table].project(rows),
            )
            &&& ascending_below(rows, db[table].rows() as int)
            &&& forall|r: int|
                0 <= r < db[table].rows() ==> (rows.contains(r) <==> scalar_eq(
                    #[trigger] db[table].columns[column].cells[r],
                    v,
                ))
        }),
{
    let found = db[table];
    assert(found.wf());
    let source = found.columns[column];
    let cells = source.cells;
    let condition = equals_condition(v);
    assert(cells.len() == found.columns[0].cells.len());
    assert(source.homogeneous());
    assert(!is_trivial(condition));
    assert forall|r: int| 0 <= r < cells.len() implies (#[trigger] spec_evaluate(
        condition,
        cells[r],
        arith,
    )) is Ok && (holds(condition, cells[r], arith) <==> scalar_eq(cells[r], v)) by {
        lemma_equals_condition(cells[r], v, arith);
    }
    lemma_matching_rows_total(cells, condition, cells.len() as int, arith);
    lemma_matching_rows_members(cells, condition, cells.len() as int, arith);
    crate::table::lemma_matching_rows_ascending(cells, condition, cells.len() as int, arith);
}

/// After a delete that succeeds, a select on the same column and condition
/// returns a table without rows, under the same schema.
pub proof fn law_delete_then_select_is_empty(
    db: Seq<TableView>,
    table: int,
    column: int,
    condition: Seq<ExprView>,
    arith: spec_fn(Arithmetic, u32, u32) -> u32,
)
    requires
        wf_tables(db),
        spec_delete(db, table, column, condition, arith) is Ok,
    ensures
        ({
            let next = spec_delete(db, table, column, condition, arith)->Ok_0;
            &&& spec_select(next, table, column, condition, arith) is Ok
            &&& spec_select(next, table, column, condition, arith)->Ok_0.rows() == 0
            &&& spec_select(next, table, column, condition, arith)->Ok_0.column_types
                == db[table].column_types
            &&& forall|c: int|
                0 <= c < db[table].columns.len() ==> (#[trigger] spec_select(
                    next,
                    table,
                    column,
                    condition,
                    arith,
                )->Ok_0.columns[c]).cells.len() == 0
        }),
{
    let found = db[table];
    assert(found.wf());
    let cells = found.columns[column].cells;
    assert(cells.len() == found.columns[0].cells.len());
    let rows = spec_matching(db, table, column, condition, arith)->Ok_0;
    crate::table::lemma_matching_rows_ascending(cells, condition, cells.len() as int, arith);
    lemma_matching_rows_members(cells, condition, cells.len() as int, arith);
    let quiet = |v: ValueView| spec_evaluate(condition, v, arith) is Ok && !holds(
        condition,
        v,
        arith,
    );
    assert forall|i: int| 0 <= i < cells.len() && !rows.contains(i) implies quiet(
        #[trigger] cells[i],
    ) by {
        assert(spec_evaluate(condition, cells[i], arith) is Ok);
    }
    lemma_drop_rows_keeps(cells, rows, quiet);
    let left = drop_rows(cells, rows);
    assert forall|r: int| 0 <= r < left.len() implies (#[trigger] spec_evaluate(
        condition,
        left[r],
        arith,
    )) is Ok && !holds(condition, left[r], arith) by {
        assert(quiet(left[r]));
    }
    lemma_matching_rows_none(left, condition, left.len() as int, arith);
    let next = spec_delete(db, table, column, condition, arith)->Ok_0;
    assert(next[table] == found.without(rows));
    assert(next[table].columns[column].cells == left);
}

/// The program that gives `k` has the value `k` on every cell.
pub proof fn lemma_constant_program(
    k: ValueView,
    cell: ValueView,
    arith: spec_fn(Arithmetic, u32, u32) -> u32,
)
    ensures
        spec_compute(constant_program(k), cell, arith) == Ok::<ValueView, QueryError>(k),
{
    reveal_with_fuel(eval_from, 2);
    let program = constant_program(k);
    let one = Seq::<ValueView>::empty().push(k);
    assert(eval_step(
        Seq::empty(),
        program[0],
        cell,
        arith,
    ) == Ok::<Seq<ValueView>, QueryError>(one));
    assert(eval_from(program, cell, 1, one, arith) == Ok::<Seq<ValueView>, QueryError>(one));
}

/// Updating rows with the program that gives `k` sets exactly those rows to
/// `k`.
pub proof fn lemma_update_cells_constant(
    cells: Seq<ValueView>,
    tag: Types,
    rows: Seq<int>,
    k: ValueView,
    at: int,
    arith: spec_fn(Arithmetic, u32, u32) -> u32,
)
    requires
        0 <= at <= rows.len(),
        k.types() == tag,
        forall|i: int| 0 <= i < rows.len() ==> 0 <= #[trigger] rows[i] < cells.len(),
    ensures
        update_cells(
            cells,
            tag,
            rows,
            constant_program(k),
            at,
            arith,
        ) == Ok::<Seq<ValueView>, QueryError>(
            Seq::new(
                cells.len(),
                |r: int|
                    if rows.subrange(at, rows.len() as int).contains(r) {
                        k
                    } else {
                        cells[r]
                    },
            ),
        ),
    decreases rows.len() - at,
{
    let tail = rows.subrange(at, rows.len() as int);
    let wanted = Seq::new(
        cells.len(),
        |r: int|
            if tail.contains(r) {
                k
            } else {
                cells[r]
            },
    );
    if at == rows.len() {
        assert(wanted =~= cells);
    } else {
        let row = rows[at];
        lemma_constant_program(k, cells[row], arith);
        let next = cells.update(row, k);
        lemma_update_cells_constant(next, tag, rows, k, at + 1, arith);
        let shorter = rows.subrange(at + 1, rows.len() as int);
        let got = Seq::new(
            next.len(),
            |r: int|
                if shorter.contains(r) {
                    k
                } else {
                    next[r]
                },
        );
        assert(tail[0] == row);
        assert forall|r: int| tail.contains(r) <==> (r == row || shorter.contains(r)) by {
            if tail.contains(r) {
                let i = choose|i: int| 0 <= i < tail.len() && tail[i] == r;
                if i > 0 {
                    assert(shorter[i - 1] == r);
                }
            }
            if shorter.contains(r) {
                let i = choose|i: int| 0 <= i < shorter.len() && shorter[i] == r;
                assert(tail[i + 1] == r);
            }
        }
        assert(got =~= wanted);
    }
}

/// An update of column `c` to `k` on "the cell equals `v`", where `k` and
/// `v` are of the column's type, sets the column to `k` in every row where
/// it equalled `v`, and leaves every other cell of the database as it was.
pub proof fn law_update_sets_equal_rows(
    db: Seq<TableView>,
    table: int,
    c: int,
    k: ValueView,
    v: ValueView,
    arith: spec_fn(Arithmetic, u32, u32) -> u32,
)
    requires
        wf_tables(db),
        0 <= table < db.len(),
        0 <= c < db[table].columns.len(),
        db[table].columns[c].tag == v.types(),
        db[table].columns[c].tag == k.types(),
    ensures
        spec_update(
            db,
            table,
            c,
            seq![(c, constant_program(k))],
            equals_condition(v),
            arith,
        ) == Ok::<
            Seq<TableView>,
            QueryError,
        >(
            db.update(
                table,
                db[table].with_cells(
                    c,
                    Seq::new(
                        db[table].columns[c].cells.len(),
                        |r: int|
                            if scalar_eq(db[table].columns[c].cells[r], v) {
                                k
                            } else {
                                db[table].columns[c].cells[r]
                            },
                    ),
                ),
            ),
        ),
{
    let found = db[table];
    let cells = found.columns[c].cells;
    let tag = found.columns[c].tag;
    let targets = seq![(c, constant_program(k))];
    law_select_equals(db, table, c, v, arith);
    let rows = spec_matching(db, table, c, equals_condition(v), arith)->Ok_0;
    assert(found.wf());
    assert(cells.len() == found.columns[0].cells.len());
    lemma_update_cells_constant(cells, tag, rows, k, 0, arith);
    assert(rows.subrange(0, rows.len() as int) =~= rows);
    let written = Seq::new(
        cells.len(),
        |r: int|
            if rows.contains(r) {
                k
            } else {
                cells[r]
            },
    );
    let wanted = Seq::new(
        cells.len(),
        |r: int|
            if scalar_eq(cells[r], v) {
                k
            } else {
                cells[r]
            },
    );
    assert(written =~= wanted);
    reveal_with_fuel(TableView::update, 3);
    assert(targets[0] == (c, constant_program(k)));
    assert(found.update(rows, targets, 0, arith) == found.with_cells(c, wanted).update(
        rows,
        targets,
        1,
        arith,
    ));
}

/// The errors that evaluation can end in.
pub open spec fn evaluation_error(e: QueryError) -> bool {
    e == QueryError::TypeMismatch || e == QueryError::OperatorMismatch || e
        == QueryError::StackUnderflow || e == QueryError::NoOperation
}

/// A run that fails ends in a type mismatch, an operator mismatch or a
/// stack underflow.
pub proof fn lemma_run_errors(
    program: Seq<ExprView>,
    cell: ValueView,
    at: int,
    stack: Seq<ValueView>,
    arith: spec_fn(Arithmetic, u32, u32) -> u32,
)
    requires
        eval_from(program, cell, at, stack, arith) is Err,
    ensures
        evaluation_error(eval_from(program, cell, at, stack, arith)->Err_0),
    decreases program.len() - at,
{
    if 0 <= at < program.len() {
        match eval_step(stack, program[at], cell, arith) {
            Ok(next) => {
                lemma_run_errors(program, cell, at + 1, next, arith);
            },
            Err(_) => {},
        }
    }
}

/// Evaluation with the cell bound never ends in `CellValueNotSet`, nor in an
/// error of the database: where it fails, it is with a type mismatch, an
/// operator mismatch, a stack underflow or `NoOperation`.
pub proof fn law_evaluation_errors(
    program: Seq<ExprView>,
    cell: ValueView,
    arith: spec_fn(Arithmetic, u32, u32) -> u32,
)
    ensures
        spec_evaluate(program, cell, arith) is Err ==> evaluation_error(
            spec_evaluate(program, cell, arith)->Err_0,
        ),
        spec_compute(program, cell, arith) is Err ==> evaluation_error(spec_compute(
            program,
            cell,
            arith,
        )->Err_0),
{
    if eval_from(program, cell, 0, Seq::empty(), arith) is Err {
        lemma_run_errors(program, cell, 0, Seq::empty(), arith);
    }
}

/// The program of one binary operator on two values.
pub open spec fn binary_program(a: ValueView, b: ValueView, op: ExprView) -> Seq<ExprView> {
    seq![ExprView::Value(a), ExprView::Value(b), op]
}

/// The operator is one of arithmetic.
pub open spec fn is_arithmetic(op: ExprView) -> bool {
    op is Add || op is Sub || op is Mul || op is Div
}

/// The operator of arithmetic that a node stands for.
pub open spec fn arithmetic_of(op: ExprView) -> Arithmetic {
    match op {
        ExprView::Add => Arithmetic::Add,
        ExprView::Sub => Arithmetic::Sub,
        ExprView::Mul => Arithmetic::Mul,
        _ => Arithmetic::Div,
    }
}

/// The quotient of two integers exists: the divisor is not zero, and the
/// quotient is not the one integer too large to be held.
pub open spec fn quotient_exists(x: i32, y: i32) -> bool {
    y != 0 && !(x == i32::MIN && y == -1)
}

/// A binary operator on two values evaluates to what the operator makes of
/// them, the first value as its left operand.
pub proof fn lemma_binary_program(
    a: ValueView,
    b: ValueView,
    op: ExprView,
    cell: ValueView,
    arith: spec_fn(Arithmetic, u32, u32) -> u32,
)
    requires
        !op.is_leaf(),
        !(op is Not),
    ensures
        spec_evaluate(binary_program(a, b, op), cell, arith) == apply_binary(op, a, b, arith),
{
    reveal_with_fuel(eval_from, 4);
    let program = binary_program(a, b, op);
    let none = Seq::<ValueView>::empty();
    let one = none.push(a);
    let two = one.push(b);
    assert(!is_trivial(program));
    assert(eval_step(none, program[0], cell, arith) == Ok::<Seq<ValueView>, QueryError>(one));
    assert(eval_step(one, program[1], cell, arith) == Ok::<Seq<ValueView>, QueryError>(two));
    assert(two[two.len() - 2] == a && two[two.len() - 1] == b);
    match apply_binary(op, a, b, arith) {
        Ok(v) => {
            let last = two.drop_last().drop_last().push(v);
            assert(eval_step(two, program[2], cell, arith) == Ok::<Seq<ValueView>, QueryError>(
                last,
            ));
            assert(last.len() == 1 && last[0] == v);
            assert(eval_from(program, cell, 3, last, arith) == Ok::<Seq<ValueView>, QueryError>(
                last,
            ));
        },
        Err(e) => {
            assert(eval_step(two, program[2], cell, arith) == Err::<Seq<ValueView>, QueryError>(e));
        },
    }
}

/// Arithmetic on two values of one type. On integers the result is the
/// integer sum, difference or product where that can be held, and the
/// quotient where it exists. On floats it is the float that the arithmetic
/// gives. On strings `Add` joins the two, and the other operators are a
/// `TypeMismatch`, as all four are on truth values.
pub proof fn law_arithmetic(
    a: ValueView,
    b: ValueView,
    op: ExprView,
    cell: ValueView,
    arith: spec_fn(Arithmetic, u32, u32) -> u32,
)
    requires
        a.types() == b.types(),
        is_arithmetic(op),
    ensures
        ({
            let out = spec_evaluate(binary_program(a, b, op), cell, arith);
            match (a, b) {
                (ValueView::Int(x), ValueView::Int(y)) => {
                    &&& op is Add && i32::MIN <= x + y <= i32::MAX ==> out == Ok::<
                        ValueView,
                        QueryError,
                    >(ValueView::Int((x + y) as i32))
                    &&& op is Sub && i32::MIN <= x - y <= i32::MAX ==> out == Ok::<
                        ValueView,
                        QueryError,
                    >(ValueView::Int((x - y) as i32))
                    &&& op is Mul && i32::MIN <= x * y <= i32::MAX ==> out == Ok::<
                        ValueView,
                        QueryError,
                    >(ValueView::Int((x * y) as i32))
                    &&& op is Div && quotient_exists(x, y) ==> out is Ok && out->Ok_0 is Int
                    &&& op is Div && !quotient_exists(x, y) ==> out == Err::<ValueView, QueryError>(
                        QueryError::OperatorMismatch,
                    )
                    &&& !(op is Div) ==> out is Ok && out->Ok_0 is Int
                },
                (ValueView::Float(x), ValueView::Float(y)) => out == Ok::<ValueView, QueryError>(
                    ValueView::Float(arith(arithmetic_of(op), x, y)),
                ),
                (ValueView::Str(x), ValueView::Str(y)) => if op is Add {
                    out == Ok::<ValueView, QueryError>(ValueView::Str(x + y))
                } else {
                    out == Err::<ValueView, QueryError>(QueryError::TypeMismatch)
                },
                _ => out == Err::<ValueView, QueryError>(QueryError::TypeMismatch),
            }
        }),
{
    lemma_binary_program(a, b, op, cell, arith);
    match (a, b) {
        (ValueView::Int(x), ValueView::Int(y)) => {
            if op is Div && quotient_exists(x, y) {
                lemma_quotient_fits(x as int, y as int);
                assert(x.checked_div(y) is Some);
            }
            if op is Div && x == i32::MIN && y == -1 {
                assert((x as int * -1) / (y as int * -1) == 2147483648) by (nonlinear_arith)
                    requires
                        x == -2147483648,
                        y == -1,
                ;
                assert(x.checked_div(y) is None);
            }
            if op is Add && i32::MIN <= x + y <= i32::MAX {
                assert(x.wrapping_add(y) == (x + y) as i32);
            }
            if op is Sub && i32::MIN <= x - y <= i32::MAX {
                assert(x.wrapping_sub(y) == (x - y) as i32);
            }
            if op is Mul && i32::MIN <= x * y <= i32::MAX {
                assert(x.wrapping_mul(y) == (x * y) as i32);
            }
        },
        _ => {},
    }
}

/// The quotient of two integers, rounded toward zero, is no larger in size
/// than the dividend.
proof fn lemma_quotient_fits(x: int, d: int)
    requires
        d != 0,
    ensures
        x >= 0 && d > 0 ==> 0 <= x / d <= x,
        x < 0 && d < 0 ==> 0 <= (x * -1) / (d * -1) <= -x,
        x < 0 && d < -1 ==> (x * -1) / (d * -1) < -x,
        x < 0 && d > 0 ==> x <= ((x * -1) / d) * -1 <= 0,
        x >= 0 && d < 0 ==> -x <= (x / (d * -1)) * -1 <= 0,
{
    assert(x >= 0 && d > 0 ==> 0 <= x / d <= x) by (nonlinear_arith)
        requires
            d != 0,
    ;
    assert(x < 0 && d < 0 ==> 0 <= (x * -1) / (d * -1) <= -x) by (nonlinear_arith)
        requires
            d != 0,
    ;
    assert(x < 0 && d < -1 ==> (x * -1) / (d * -1) < -x) by (nonlinear_arith)
        requires
            d != 0,
    ;
    assert(x < 0 && d > 0 ==> x <= ((x * -1) / d) * -1 <= 0) by (nonlinear_arith)
        requires
            d != 0,
    ;
    assert(x >= 0 && d < 0 ==> -x <= (x / (d * -1)) * -1 <= 0) by (nonlinear_arith)
        requires
            d != 0,
    ;
}

} // verus!
