//! The database: a sequence of tables addressed by position, and the
//! operations on them.
//!
//! Every operation validates first, then finds the rows it concerns, then
//! reads or changes them. An operation that returns an error has changed
//! nothing.

use vstd::prelude::*;
use crate::expr::{arith_of, program_view, Arithmetic, Expr, ExprView, FloatArithmetic};
use crate::query_error::QueryError;
use crate::table::{
    all_rows,
    columns_view,
    every_row,
    rectangular,
    targets_view,
    values_view,
    Table,
    TableView,
};
use crate::values::{ascending_below, positions, Column, Value, ValueView};

verus! {

/// Every table satisfies the table invariant.
pub open spec fn wf_tables(db: Seq<TableView>) -> bool {
    forall|t: int| 0 <= t < db.len() ==> (#[trigger] db[t]).wf()
}

/// The table at position `table`, if there is one.
pub open spec fn spec_get_table(db: Seq<TableView>, table: int) -> Result<TableView, QueryError> {
    if 0 <= table < db.len() {
        Ok(db[table])
    } else {
        Err(QueryError::TableNotFound)
    }
}

/// The table at position `table`, if there is one and it has a column at
/// position `column`.
pub open spec fn spec_get_table_with_column_check(
    db: Seq<TableView>,
    table: int,
    column: int,
) -> Result<TableView, QueryError> {
    if !(0 <= table < db.len()) {
        Err(QueryError::TableNotFound)
    } else if !(0 <= column < db[table].columns.len()) {
        Err(QueryError::ColumnNotFound)
    } else {
        Ok(db[table])
    }
}

/// The rows of table `table` that satisfy `condition` on column `column`.
/// The table and the column must exist, and the condition must be an
/// operation.
pub open spec fn spec_matching(
    db: Seq<TableView>,
    table: int,
    column: int,
    condition: Seq<ExprView>,
    arith: spec_fn(Arithmetic, u32, u32) -> u32,
) -> Result<Seq<int>, QueryError> {
    match spec_get_table_with_column_check(db, table, column) {
        Err(e) => Err(e),
        Ok(found) => found.matching(column, condition, arith),
    }
}

/// The outcome of a select: the matching rows of the table, as a new table.
pub open spec fn spec_select(
    db: Seq<TableView>,
    table: int,
    column: int,
    condition: Seq<ExprView>,
    arith: spec_fn(Arithmetic, u32, u32) -> u32,
) -> Result<TableView, QueryError> {
    match spec_matching(db, table, column, condition, arith) {
        Err(e) => Err(e),
        Ok(rows) => Ok(db[table].project(rows)),
    }
}

/// The outcome of an insert: the database with the row appended to the
/// table.
pub open spec fn spec_insert(db: Seq<TableView>, table: int, values: Seq<ValueView>) -> Result<
    Seq<TableView>,
    QueryError,
> {
    match spec_get_table(db, table) {
        Err(e) => Err(e),
        Ok(found) => match found.insert(values) {
            Err(e) => Err(e),
            Ok(next) => Ok(db.update(table, next)),
        },
    }
}

/// The outcome of an update: the database with the targets applied to the
/// matching rows of the table.
pub open spec fn spec_update(
    db: Seq<TableView>,
    table: int,
    condition_column: int,
    targets: Seq<(int, Seq<ExprView>)>,
    condition: Seq<ExprView>,
    arith: spec_fn(Arithmetic, u32, u32) -> u32,
) -> Result<Seq<TableView>, QueryError> {
    match spec_matching(db, table, condition_column, condition, arith) {
        Err(e) => Err(e),
        Ok(rows) => match db[table].update(rows, targets, 0, arith) {
            Err(e) => Err(e),
            Ok(next) => Ok(db.update(table, next)),
        },
    }
}

/// The outcome of an update of every row of the table.
pub open spec fn spec_update_all(
    db: Seq<TableView>,
    table: int,
    targets: Seq<(int, Seq<ExprView>)>,
    arith: spec_fn(Arithmetic, u32, u32) -> u32,
) -> Result<Seq<TableView>, QueryError> {
    match spec_get_table(db, table) {
        Err(e) => Err(e),
        Ok(found) => match found.update(all_rows(found.rows() as int), targets, 0, arith) {
            Err(e) => Err(e),
            Ok(next) => Ok(db.update(table, next)),
        },
    }
}

/// The outcome of a delete: the database without the matching rows of the
/// table.
pub open spec fn spec_delete(
    db: Seq<TableView>,
    table: int,
    column: int,
    condition: Seq<ExprView>,
    arith: spec_fn(Arithmetic, u32, u32) -> u32,
) -> Result<Seq<TableView>, QueryError> {
    match spec_matching(db, table, column, condition, arith) {
        Err(e) => Err(e),
        Ok(rows) => Ok(db.update(table, db[table].without(rows))),
    }
}

/// A sequence of tables, each addressed by its position, and the float
/// arithmetic that its expressions are evaluated with.
#[derive(Debug)]
pub struct Database<A: FloatArithmetic> {
    tables: Vec<Table>,
    unit: A,
}

impl<A: FloatArithmetic> View for Database<A> {
    type V = Seq<TableView>;

    closed spec fn view(&self) -> Seq<TableView> {
        Seq::new(self.tables@.len(), |t: int| self.tables@[t]@)
    }
}

impl<A: FloatArithmetic> Database<A> {
    /// Every table satisfies the table invariant.
    pub open spec fn wf(&self) -> bool {
        wf_tables(self@)
    }

    /// The float arithmetic that the database was made with.
    pub closed spec fn float_unit(&self) -> A {
        self.unit
    }

    /// The float arithmetic as the contracts of the operations speak of it.
    pub open spec fn arith(&self) -> spec_fn(Arithmetic, u32, u32) -> u32 {
        arith_of(&self.float_unit())
    }

    /// A database without tables, which evaluates the arithmetic of floats
    /// with `unit`.
    pub fn new(unit: A) -> (db: Database<A>)
        ensures
            db.wf(),
            db@ == Seq::<TableView>::empty(),
            db.float_unit() == unit,
    {
        let db = Database { tables: Vec::new(), unit };
        assert(db@ =~= Seq::<TableView>::empty());
        db
    }

    /// Where one table has changed and the others are as they were, the
    /// database is the old one with that table replaced.
    proof fn lemma_table_replaced(before: Database<A>, after: Database<A>, table: int)
        requires
            before.wf(),
            0 <= table < before.tables@.len(),
            after.tables@.len() == before.tables@.len(),
            after.tables@[table]@.wf(),
            forall|t: int|
                0 <= t < before.tables@.len() && t != table ==> after.tables@[t]
                    == before.tables@[t],
        ensures
            after.wf(),
            after@ == before@.update(table, after.tables@[table]@),
            after.tables@[table]@ == before@[table] ==> after@ == before@,
    {
        assert(after@ =~= before@.update(table, after.tables@[table]@));
        assert forall|t: int| 0 <= t < after@.len() implies (#[trigger] after@[t]).wf() by {
            if t != table {
                assert(after@[t] == before@[t]);
            }
        }
        if after.tables@[table]@ == before@[table] {
            assert(after@ =~= before@);
        }
    }

    /// The number of tables.
    pub fn table_count(&self) -> (n: usize)
        ensures
            n == self@.len(),
    {
        self.tables.len()
    }

    /// The table at position `id`, or `TableNotFound`.
    pub fn get_table(&self, id: usize) -> (out: Result<&Table, QueryError>)
        ensures
            match out {
                Ok(found) => spec_get_table(self@, id as int) == Ok::<TableView, QueryError>(
                    found@,
                ),
                Err(e) => spec_get_table(self@, id as int) == Err::<TableView, QueryError>(e),
            },
    {
        if id < self.tables.len() {
            Ok(&self.tables[id])
        } else {
            Err(QueryError::TableNotFound)
        }
    }

    /// The table at position `id` if it has a column at position `column`;
    /// `TableNotFound` without the table, `ColumnNotFound` without the column.
    pub fn get_table_with_column_check(&self, id: usize, column: usize) -> (out: Result<
        &Table,
        QueryError,
    >)
        ensures
            match out {
                Ok(found) => spec_get_table_with_column_check(self@, id as int, column as int)
                    == Ok::<TableView, QueryError>(found@),
                Err(e) => spec_get_table_with_column_check(self@, id as int, column as int) == Err::<
                    TableView,
                    QueryError,
                >(e),
            },
    {
        if id >= self.tables.len() {
            Err(QueryError::TableNotFound)
        } else if column >= self.tables[id].column_count() {
            Err(QueryError::ColumnNotFound)
        } else {
            Ok(&self.tables[id])
        }
    }

    /// Appends a table of the given columns, which must all have the same
    /// number of rows; it takes the next free position.
    pub fn add_table(&mut self, columns: Vec<Column>)
        requires
            old(self).wf(),
            rectangular(columns_view(columns@)),
        ensures
            final(self).wf(),
            final(self).float_unit() == old(self).float_unit(),
            final(self)@ == old(self)@.push(TableView::of(columns_view(columns@))),
    {
        let table = Table::new(columns);
        self.tables.push(table);
        assert(self@ =~= old(self)@.push(table@));
    }

    /// Removes the table at position `id`, which must exist; the tables
    /// behind it move down by one position.
    pub fn drop_table(&mut self, id: usize)
        requires
            old(self).wf(),
            id < old(self)@.len(),
        ensures
            final(self).wf(),
            final(self).float_unit() == old(self).float_unit(),
            final(self)@ == old(self)@.remove(id as int),
    {
        self.tables.remove(id);
        assert(self@ =~= old(self)@.remove(id as int));
    }

    /// The rows of table `table` whose cell in column `column` satisfies
    /// `condition`, after the checks that every conditional operation makes.
    fn matching(&self, table: usize, column: usize, condition: &Vec<Expr>) -> (out: Result<
        Vec<usize>,
        QueryError,
    >)
        requires
            self.wf(),
        ensures
            match out {
                Ok(rows) => spec_matching(
                    self@,
                    table as int,
                    column as int,
                    program_view(condition@),
                    self.arith(),
                ) == Ok::<Seq<int>, QueryError>(positions(rows@)) && ascending_below(
                    positions(rows@),
                    self@[table as int].rows() as int,
                ) && forall|i: int|
                    0 <= i < rows@.len() ==> (#[trigger] rows@[i]) < self@[table as int].rows(),
                Err(e) => spec_matching(
                    self@,
                    table as int,
                    column as int,
                    program_view(condition@),
                    self.arith(),
                ) == Err::<Seq<int>, QueryError>(e),
            },
    {
        let found = match self.get_table_with_column_check(table, column) {
            Ok(found) => found,
            Err(e) => {
                return Err(e);
            },
        };
        assert(found@.wf());
        assert(found@.columns[column as int].cells.len() == found@.columns[0].cells.len());
        match found.matching_rows(column, condition, &self.unit) {
            Err(e) => Err(e),
            Ok(rows) => {
                assert forall|i: int| 0 <= i < rows@.len() implies (#[trigger] rows@[i])
                    < found@.rows() by {
                    assert(positions(rows@)[i] == rows@[i] as int);
                }
                Ok(rows)
            },
        }
    }

    /// A new table of the rows of table `table` whose cell in column
    /// `column_target` satisfies `condition`, all columns kept, in the
    /// table's row order. The database is not changed.
    ///
    /// Errors, in this order: `TableNotFound`; `ColumnNotFound`;
    /// `NoOperation` for an empty condition or a bare leaf; the error of the
    /// first row on which the condition fails to evaluate. A row on which
    /// the condition gives anything but true is not kept.
    pub fn select(&self, table: usize, column_target: usize, condition: Vec<Expr>) -> (out: Result<
        Table,
        QueryError,
    >)
        requires
            self.wf(),
        ensures
            match out {
                Ok(result) => result.wf() && spec_select(
                    self@,
                    table as int,
                    column_target as int,
                    program_view(condition@),
                    self.arith(),
                ) == Ok::<TableView, QueryError>(result@),
                Err(e) => spec_select(
                    self@,
                    table as int,
                    column_target as int,
                    program_view(condition@),
                    self.arith(),
                ) == Err::<TableView, QueryError>(e),
            },
    {
        let rows = match self.matching(table, column_target, &condition) {
            Ok(rows) => rows,
            Err(e) => {
                return Err(e);
            },
        };
        assert(self@[table as int].wf());
        Ok(self.tables[table].project(&rows))
    }

    /// A copy of table `table`, or `TableNotFound`.
    pub fn select_table(&self, table: usize) -> (out: Result<Table, QueryError>)
        requires
            self.wf(),
        ensures
            match out {
                Ok(result) => result.wf() && spec_get_table(self@, table as int) == Ok::<
                    TableView,
                    QueryError,
                >(result@),
                Err(e) => spec_get_table(self@, table as int) == Err::<TableView, QueryError>(e),
            },
    {
        match self.get_table(table) {
            Ok(found) => {
                assert(self@[table as int].wf());
                Ok(found.clone())
            },
            Err(e) => Err(e),
        }
    }

    /// Appends `value` as the last row of table `table`.
    ///
    /// Errors, in this order: `TableNotFound`; `SizeMismatch` if there are
    /// not as many values as columns; `TypeMismatch` if a value is not of its
    /// column's type. On an error the database is unchanged.
    pub fn insert(&mut self, table: usize, value: Vec<Value>) -> (out: Result<(), QueryError>)
        requires
            old(self).wf(),
        ensures
            final(self).wf(),
            final(self).float_unit() == old(self).float_unit(),
            match out {
                Ok(_) => spec_insert(old(self)@, table as int, values_view(value@)) == Ok::<
                    Seq<TableView>,
                    QueryError,
                >(final(self)@),
                Err(e) => spec_insert(old(self)@, table as int, values_view(value@)) == Err::<
                    Seq<TableView>,
                    QueryError,
                >(e) && final(self)@ == old(self)@,
            },
    {
        if table >= self.tables.len() {
            return Err(QueryError::TableNotFound);
        }
        assert(self@[table as int].wf());
        let out = self.tables[table].insert_row(&value);
        proof {
            Self::lemma_table_replaced(*old(self), *self, table as int);
        }
        out
    }

    /// Gives new values to the rows of table `table` whose cell in column
    /// `condition_column` satisfies `condition`. Each target names a column
    /// and the program that computes the column's new cell from the cell it
    /// holds; targets are applied one after the other.
    ///
    /// Errors, in this order: `TableNotFound`; `ColumnNotFound`;
    /// `NoOperation` for an empty condition or a bare leaf; the error of the
    /// first row on which the condition fails to evaluate; the error of the
    /// first target program that fails, or `TypeMismatch` where it gives a
    /// value of another type than the column's. On an error the database is
    /// unchanged.
    pub fn update(
        &mut self,
        table: usize,
        condition_column: usize,
        targets: Vec<(usize, Vec<Expr>)>,
        condition: Vec<Expr>,
    ) -> (out: Result<(), QueryError>)
        requires
            old(self).wf(),
        ensures
            final(self).wf(),
            final(self).float_unit() == old(self).float_unit(),
            match out {
                Ok(_) => spec_update(
                    old(self)@,
                    table as int,
                    condition_column as int,
                    targets_view(targets@),
                    program_view(condition@),
                    old(self).arith(),
                ) == Ok::<Seq<TableView>, QueryError>(final(self)@),
                Err(e) => spec_update(
                    old(self)@,
                    table as int,
                    condition_column as int,
                    targets_view(targets@),
                    program_view(condition@),
                    old(self).arith(),
                ) == Err::<Seq<TableView>, QueryError>(e) && final(self)@ == old(self)@,
            },
    {
        let rows = match self.matching(table, condition_column, &condition) {
            Ok(rows) => rows,
            Err(e) => {
                return Err(e);
            },
        };
        assert(self@[table as int].wf());
        let out = self.tables[table].update_rows(&rows, &targets, &self.unit);
        proof {
            Self::lemma_table_replaced(*old(self), *self, table as int);
        }
        out
    }

    /// Gives new values to every row of table `table`, as `update` does to
    /// the matching rows.
    ///
    /// Errors, in this order: `TableNotFound`; the error of the first target
    /// program that fails, or `TypeMismatch` where it gives a value of
    /// another type than the column's. On an error the database is unchanged.
    pub fn update_all(&mut self, table: usize, targets: Vec<(usize, Vec<Expr>)>) -> (out: Result<
        (),
        QueryError,
    >)
        requires
            old(self).wf(),
        ensures
            final(self).wf(),
            final(self).float_unit() == old(self).float_unit(),
            match out {
                Ok(_) => spec_update_all(
                    old(self)@,
                    table as int,
                    targets_view(targets@),
                    old(self).arith(),
                ) == Ok::<
                    Seq<TableView>,
                    QueryError,
                >(final(self)@),
                Err(e) => spec_update_all(
                    old(self)@,
                    table as int,
                    targets_view(targets@),
                    old(self).arith(),
                ) == Err::<
                    Seq<TableView>,
                    QueryError,
                >(e) && final(self)@ == old(self)@,
            },
    {
        if table >= self.tables.len() {
            return Err(QueryError::TableNotFound);
        }
        assert(self@[table as int].wf());
        let rows = every_row(self.tables[table].row_count());
        assert forall|i: int| 0 <= i < rows@.len() implies (#[trigger] rows@[i])
            < self@[table as int].rows() by {
            assert(positions(rows@)[i] == rows@[i] as int);
        }
        let out = self.tables[table].update_rows(&rows, &targets, &self.unit);
        proof {
            Self::lemma_table_replaced(*old(self), *self, table as int);
        }
        out
    }

    /// Removes the rows of table `table` whose cell in column `column`
    /// satisfies `condition`, from every column, the last row first.
    ///
    /// Errors, in this order: `TableNotFound`; `ColumnNotFound`;
    /// `NoOperation` for an empty condition or a bare leaf; the error of the
    /// first row on which the condition fails to evaluate. On an error the
    /// database is unchanged.
    pub fn delete(&mut self, table: usize, column: usize, condition: Vec<Expr>) -> (out: Result<
        (),
        QueryError,
    >)
        requires
            old(self).wf(),
        ensures
            final(self).wf(),
            final(self).float_unit() == old(self).float_unit(),
            match out {
                Ok(_) => spec_delete(
                    old(self)@,
                    table as int,
                    column as int,
                    program_view(condition@),
                    old(self).arith(),
                ) == Ok::<Seq<TableView>, QueryError>(final(self)@),
                Err(e) => spec_delete(
                    old(self)@,
                    table as int,
                    column as int,
                    program_view(condition@),
                    old(self).arith(),
                ) == Err::<Seq<TableView>, QueryError>(e) && final(self)@ == old(self)@,
            },
    {
        let rows = match self.matching(table, column, &condition) {
            Ok(rows) => rows,
            Err(e) => {
                return Err(e);
            },
        };
        assert(self@[table as int].wf());
        self.tables[table].remove_rows(&rows);
        proof {
            Self::lemma_table_replaced(*old(self), *self, table as int);
        }
        Ok(())
    }
}

} // verus!
