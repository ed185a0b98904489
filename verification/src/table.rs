//! Tables: parallel typed columns under a frozen schema.

use vstd::prelude::*;
use crate::expr::{
    arith_of,
    is_trivial,
    program_view,
    spec_compute,
    spec_evaluate,
    Arithmetic,
    Expr,
    ExprEvaluator,
    ExprView,
    FloatArithmetic,
};
use crate::query_error::QueryError;
use crate::values::{
    ascending_below,
    drop_rows,
    lemma_drop_rows_keeps,
    pick_rows,
    positions,
    Column,
    ColumnView,
    ToTypes,
    Types,
    Value,
    ValueView,
};

verus! {

/// The columns of a vector as contracts speak of them.
pub open spec fn columns_view(columns: Seq<Column>) -> Seq<ColumnView> {
    Seq::new(columns.len(), |c: int| columns[c]@)
}

/// The values of a vector as contracts speak of them.
pub open spec fn values_view(values: Seq<Value>) -> Seq<ValueView> {
    Seq::new(values.len(), |i: int| values[i]@)
}

/// The tags of a sequence of values.
pub open spec fn types_of(values: Seq<ValueView>) -> Seq<Types> {
    Seq::new(values.len(), |i: int| values[i].types())
}

/// The targets of an update as contracts speak of them: a column position and
/// the program that gives the column's new value.
pub open spec fn targets_view(targets: Seq<(usize, Vec<Expr>)>) -> Seq<(int, Seq<ExprView>)> {
    Seq::new(targets.len(), |i: int| (targets[i].0 as int, program_view(targets[i].1@)))
}

/// All columns have the same number of rows.
pub open spec fn rectangular(columns: Seq<ColumnView>) -> bool {
    forall|c: int, d: int|
        0 <= c < columns.len() && 0 <= d < columns.len() ==> (#[trigger] columns[c]).cells.len()
            == (#[trigger] columns[d]).cells.len()
}

/// Every position from 0 up to, but not including, `n`.
pub open spec fn all_rows(n: int) -> Seq<int> {
    Seq::new(n as nat, |r: int| r)
}

/// The rows among the first `upto` of `cells` that satisfy `condition`, in
/// ascending order; the error of the first row that fails to evaluate, if one
/// does.
pub open spec fn matching_rows(
    cells: Seq<ValueView>,
    condition: Seq<ExprView>,
    upto: int,
    arith: spec_fn(Arithmetic, u32, u32) -> u32,
) -> Result<Seq<int>, QueryError>
    decreases upto,
{
    if upto <= 0 {
        Ok(Seq::empty())
    } else {
        match matching_rows(cells, condition, upto - 1, arith) {
            Err(e) => Err(e),
            Ok(rows) => match spec_evaluate(condition, cells[upto - 1], arith) {
                Err(e) => Err(e),
                Ok(v) => Ok(
                    if v == ValueView::Bool(true) {
                        rows.push(upto - 1)
                    } else {
                        rows
                    },
                ),
            },
        }
    }
}

/// The cells of a column of type `tag` after the program `value` has given a
/// new value to the rows `rows` from place `at` on, each bound to the row's
/// own cell. A program that fails, or gives a value of another type, ends
/// the run with its error.
pub open spec fn update_cells(
    cells: Seq<ValueView>,
    tag: Types,
    rows: Seq<int>,
    value: Seq<ExprView>,
    at: int,
    arith: spec_fn(Arithmetic, u32, u32) -> u32,
) -> Result<Seq<ValueView>, QueryError>
    decreases rows.len() - at,
{
    if at < 0 || at >= rows.len() {
        Ok(cells)
    } else {
        match spec_compute(value, cells[rows[at]], arith) {
            Err(e) => Err(e),
            Ok(v) => if v.types() != tag {
                Err(QueryError::TypeMismatch)
            } else {
                update_cells(cells.update(rows[at], v), tag, rows, value, at + 1, arith)
            },
        }
    }
}

/// What a `Table` stands for.
pub ghost struct TableView {
    pub columns: Seq<ColumnView>,
    pub column_types: Seq<Types>,
}

impl TableView {
    /// The table of the given columns, with their tags as its schema.
    pub open spec fn of(columns: Seq<ColumnView>) -> TableView {
        TableView { columns, column_types: Seq::new(columns.len(), |c: int| columns[c].tag) }
    }

    /// The schema matches the columns, every column holds cells of its own
    /// type only, and all columns have the same number of rows.
    pub open spec fn wf(self) -> bool {
        &&& self.columns.len() == self.column_types.len()
        &&& forall|c: int|
            0 <= c < self.columns.len() ==> (#[trigger] self.columns[c]).tag
                == self.column_types[c]
        &&& forall|c: int| 0 <= c < self.columns.len() ==> (#[trigger] self.columns[c]).homogeneous()
        &&& rectangular(self.columns)
    }

    /// The number of rows.
    pub open spec fn rows(self) -> nat {
        if self.columns.len() == 0 {
            0
        } else {
            self.columns[0].cells.len()
        }
    }

    /// The row at position `r`, one cell for each column.
    pub open spec fn row(self, r: int) -> Seq<ValueView> {
        Seq::new(self.columns.len(), |c: int| self.columns[c].cells[r])
    }

    /// The table of the rows at the positions `rows`, in that order, under
    /// the same schema.
    pub open spec fn project(self, rows: Seq<int>) -> TableView {
        TableView {
            columns: Seq::new(
                self.columns.len(),
                |c: int|
                    ColumnView {
                        tag: self.columns[c].tag,
                        cells: pick_rows(self.columns[c].cells, rows),
                    },
            ),
            column_types: self.column_types,
        }
    }

    /// The table without the rows at the positions `rows`.
    pub open spec fn without(self, rows: Seq<int>) -> TableView {
        TableView {
            columns: Seq::new(
                self.columns.len(),
                |c: int|
                    ColumnView {
                        tag: self.columns[c].tag,
                        cells: drop_rows(self.columns[c].cells, rows),
                    },
            ),
            column_types: self.column_types,
        }
    }

    /// The table with `values` appended as its last row.
    pub open spec fn with_row(self, values: Seq<ValueView>) -> TableView {
        TableView {
            columns: Seq::new(
                self.columns.len(),
                |c: int|
                    ColumnView {
                        tag: self.columns[c].tag,
                        cells: self.columns[c].cells.push(values[c]),
                    },
            ),
            column_types: self.column_types,
        }
    }

    /// The table with the cells of column `c` replaced.
    pub open spec fn with_cells(self, c: int, cells: Seq<ValueView>) -> TableView {
        TableView {
            columns: self.columns.update(c, ColumnView { tag: self.columns[c].tag, cells }),
            column_types: self.column_types,
        }
    }

    /// The outcome of appending `values` as a row: a wrong number of values
    /// is a `SizeMismatch`, a wrong type a `TypeMismatch`.
    pub open spec fn insert(self, values: Seq<ValueView>) -> Result<TableView, QueryError> {
        if values.len() != self.columns.len() {
            Err(QueryError::SizeMismatch)
        } else if types_of(values) != self.column_types {
            Err(QueryError::TypeMismatch)
        } else {
            Ok(self.with_row(values))
        }
    }

    /// The outcome of applying the targets from place `at` on to the rows
    /// `rows`, one target after the other. A target that names no column of
    /// the table changes nothing.
    pub open spec fn update(
        self,
        rows: Seq<int>,
        targets: Seq<(int, Seq<ExprView>)>,
        at: int,
        arith: spec_fn(Arithmetic, u32, u32) -> u32,
    ) -> Result<TableView, QueryError>
        decreases targets.len() - at,
    {
        if at < 0 || at >= targets.len() {
            Ok(self)
        } else {
            let (c, value) = targets[at];
            if c < 0 || c >= self.columns.len() {
                self.update(rows, targets, at + 1, arith)
            } else {
                match update_cells(
                    self.columns[c].cells,
                    self.columns[c].tag,
                    rows,
                    value,
                    0,
                    arith,
                ) {
                    Err(e) => Err(e),
                    Ok(cells) => self.with_cells(c, cells).update(rows, targets, at + 1, arith),
                }
            }
        }
    }

    /// The rows that satisfy `condition` on column `column`: `NoOperation`
    /// for a condition that is empty or a bare leaf, else the rows on which
    /// it evaluates to true, or the error of the first row on which it fails
    /// to evaluate.
    pub open spec fn matching(
        self,
        column: int,
        condition: Seq<ExprView>,
        arith: spec_fn(Arithmetic, u32, u32) -> u32,
    ) -> Result<Seq<int>, QueryError> {
        if is_trivial(condition) {
            Err(QueryError::NoOperation)
        } else {
            matching_rows(
                self.columns[column].cells,
                condition,
                self.columns[column].cells.len() as int,
                arith,
            )
        }
    }
}

/// A table: columns of equal length and the type tag of each.
#[derive(Debug, PartialEq)]
pub struct Table {
    columns: Vec<Column>,
    column_types: Vec<Types>,
}

impl View for Table {
    type V = TableView;

    closed spec fn view(&self) -> TableView {
        TableView { columns: columns_view(self.columns@), column_types: self.column_types@ }
    }
}

impl Table {
    /// The table's invariant.
    pub open spec fn wf(&self) -> bool {
        self@.wf()
    }

    /// A table of the given columns, which must all have the same number of
    /// rows; their tags become its schema.
    pub fn new(columns: Vec<Column>) -> (table: Table)
        requires
            rectangular(columns_view(columns@)),
        ensures
            table.wf(),
            table@ == TableView::of(columns_view(columns@)),
    {
        let mut column_types: Vec<Types> = Vec::new();
        let mut i: usize = 0;
        while i < columns.len()
            invariant
                i <= columns.len(),
                column_types@.len() == i,
                forall|c: int| 0 <= c < i ==> column_types@[c] == (#[trigger] columns@[c])@.tag,
            decreases columns.len() - i,
        {
            column_types.push(columns[i].to_types());
            i = i + 1;
        }
        proof {
            lemma_columns_homogeneous(columns@);
        }
        let table = Table { columns, column_types };
        assert(table@.column_types =~= TableView::of(columns_view(columns@)).column_types);
        table
    }

    /// The columns, first column first.
    pub fn columns(&self) -> (out: &Vec<Column>)
        ensures
            columns_view(out@) == self@.columns,
    {
        &self.columns
    }

    /// The schema: the type tag of each column.
    pub fn column_types(&self) -> (out: &Vec<Types>)
        ensures
            out@ == self@.column_types,
    {
        &self.column_types
    }

    /// The number of columns.
    pub fn column_count(&self) -> (n: usize)
        ensures
            n == self@.columns.len(),
    {
        self.columns.len()
    }

    /// The number of rows.
    pub fn row_count(&self) -> (n: usize)
        ensures
            n == self@.rows(),
    {
        if self.columns.len() == 0 {
            0
        } else {
            self.columns[0].len()
        }
    }

    /// The rows whose cell in column `column` satisfies `condition`, in
    /// ascending order. A condition that is empty or a bare leaf is
    /// `NoOperation`, whatever the rows; the first row that fails to evaluate
    /// ends the search with its error.
    pub fn matching_rows<A: FloatArithmetic>(
        &self,
        column: usize,
        condition: &Vec<Expr>,
        unit: &A,
    ) -> (out: Result<Vec<usize>, QueryError>)
        requires
            column < self@.columns.len(),
        ensures
            match out {
                Ok(rows) => self@.matching(
                    column as int,
                    program_view(condition@),
                    arith_of(unit),
                ) == Ok::<Seq<int>, QueryError>(positions(rows@)) && ascending_below(
                    positions(rows@),
                    self@.columns[column as int].cells.len() as int,
                ),
                Err(e) => self@.matching(column as int, program_view(condition@), arith_of(unit))
                    == Err::<Seq<int>, QueryError>(e),
            },
    {
        let ghost cells = self@.columns[column as int].cells;
        let ghost program = program_view(condition@);
        if ExprEvaluator::trivial(condition) {
            return Err(QueryError::NoOperation);
        }
        let source = &self.columns[column];
        let n = source.len();
        let mut rows: Vec<usize> = Vec::new();
        let mut r: usize = 0;
        assert(positions(rows@) =~= Seq::<int>::empty());
        while r < n
            invariant
                r <= n,
                n == cells.len(),
                column < self@.columns.len(),
                cells == self@.columns[column as int].cells,
                source@.cells == cells,
                program == program_view(condition@),
                !is_trivial(program),
                matching_rows(cells, program, r as int, arith_of(unit)) == Ok::<
                    Seq<int>,
                    QueryError,
                >(positions(rows@)),
            decreases n - r,
        {
            let cell = source.get(r);
            let ghost before = positions(rows@);
            match ExprEvaluator::compute(condition, &cell, unit) {
                Err(e) => {
                    proof {
                        lemma_matching_rows_error(
                            cells,
                            program,
                            r as int + 1,
                            n as int,
                            arith_of(unit),
                        );
                    }
                    return Err(e);
                },
                Ok(Value::Bool(true)) => {
                    rows.push(r);
                    assert(positions(rows@) =~= before.push(r as int));
                },
                Ok(_) => {},
            }
            r = r + 1;
        }
        proof {
            lemma_matching_rows_ascending(cells, program, n as int, arith_of(unit));
        }
        Ok(rows)
    }

    /// A new table of the rows at the positions `rows`, in that order, under
    /// the same schema.
    pub fn project(&self, rows: &Vec<usize>) -> (out: Table)
        requires
            self.wf(),
            forall|i: int| 0 <= i < rows@.len() ==> (#[trigger] rows@[i]) < self@.rows(),
        ensures
            out@ == self@.project(positions(rows@)),
            out.wf(),
    {
        let mut columns: Vec<Column> = Vec::new();
        let mut c: usize = 0;
        while c < self.columns.len()
            invariant
                c <= self.columns.len(),
                self.wf(),
                forall|i: int| 0 <= i < rows@.len() ==> (#[trigger] rows@[i]) < self@.rows(),
                columns@.len() == c,
                forall|d: int|
                    0 <= d < c ==> (#[trigger] columns@[d])@ == self@.project(
                        positions(rows@),
                    ).columns[d],
            decreases self.columns.len() - c,
        {
            assert(self@.columns[c as int].cells.len() == self@.columns[0].cells.len());
            let column = self.columns[c].project(rows);
            columns.push(column);
            c = c + 1;
        }
        let column_types = copy_types(&self.column_types);
        let out = Table { columns, column_types };
        proof {
            assert(out@.columns =~= self@.project(positions(rows@)).columns);
            lemma_columns_homogeneous(columns@);
        }
        out
    }

    /// Appends `values` as the last row. A wrong number of values is a
    /// `SizeMismatch`, a value of another type than its column a
    /// `TypeMismatch`; either leaves the table as it is.
    pub fn insert_row(&mut self, values: &Vec<Value>) -> (out: Result<(), QueryError>)
        requires
            old(self).wf(),
        ensures
            final(self).wf(),
            match out {
                Ok(_) => old(self)@.insert(values_view(values@)) == Ok::<TableView, QueryError>(
                    final(self)@,
                ),
                Err(e) => old(self)@.insert(values_view(values@)) == Err::<TableView, QueryError>(e)
                    && final(self)@ == old(self)@,
            },
    {
        let ghost given = values_view(values@);
        if values.len() != self.columns.len() {
            return Err(QueryError::SizeMismatch);
        }
        let mut i: usize = 0;
        while i < values.len()
            invariant
                i <= values.len(),
                values.len() == self.columns.len(),
                self.wf(),
                given == values_view(values@),
                forall|k: int| 0 <= k < i ==> (#[trigger] given[k]).types() == self.column_types@[k],
            decreases values.len() - i,
        {
            if values[i].to_types() != self.column_types[i] {
                assert(types_of(given)[i as int] != self@.column_types[i as int]);
                return Err(QueryError::TypeMismatch);
            }
            i = i + 1;
        }
        assert(types_of(given) =~= self@.column_types);
        let mut c: usize = 0;
        while c < values.len()
            invariant
                c <= values.len(),
                values.len() == self.columns.len(),
                self.columns.len() == old(self).columns.len(),
                self.column_types == old(self).column_types,
                old(self).wf(),
                given == values_view(values@),
                types_of(given) == old(self)@.column_types,
                forall|d: int|
                    0 <= d < c ==> (#[trigger] self.columns@[d])@ == old(self)@.with_row(
                        given,
                    ).columns[d],
                forall|d: int|
                    c <= d < self.columns.len() ==> (#[trigger] self.columns@[d])@ == old(
                        self,
                    )@.columns[d],
            decreases values.len() - c,
        {
            let cell = values[c].clone();
            assert(cell@ == given[c as int]);
            assert(types_of(given)[c as int] == cell@.types());
            self.columns[c].push(cell);
            c = c + 1;
        }
        proof {
            assert(self@.columns =~= old(self)@.with_row(given).columns);
            lemma_columns_homogeneous(self.columns@);
        }
        Ok(())
    }

    /// Removes the rows at the positions `rows` from every column, the last
    /// of them first.
    pub fn remove_rows(&mut self, rows: &Vec<usize>)
        requires
            old(self).wf(),
            ascending_below(positions(rows@), old(self)@.rows() as int),
        ensures
            final(self).wf(),
            final(self)@ == old(self)@.without(positions(rows@)),
    {
        let mut c: usize = 0;
        while c < self.columns.len()
            invariant
                c <= self.columns.len(),
                self.columns.len() == old(self).columns.len(),
                self.column_types == old(self).column_types,
                old(self).wf(),
                ascending_below(positions(rows@), old(self)@.rows() as int),
                forall|d: int|
                    0 <= d < c ==> (#[trigger] self.columns@[d])@ == old(self)@.without(
                        positions(rows@),
                    ).columns[d],
                forall|d: int|
                    c <= d < self.columns.len() ==> (#[trigger] self.columns@[d])@ == old(
                        self,
                    )@.columns[d],
            decreases self.columns.len() - c,
        {
            assert(old(self)@.columns[c as int].cells.len() == old(self)@.columns[0].cells.len());
            self.columns[c].remove_rows(rows);
            c = c + 1;
        }
        proof {
            assert(self@.columns =~= old(self)@.without(positions(rows@)).columns);
            lemma_columns_homogeneous(self.columns@);
            assert forall|d: int, e: int|
                0 <= d < self@.columns.len() && 0 <= e < self@.columns.len() implies (
            #[trigger] self@.columns[d]).cells.len() == (#[trigger] self@.columns[e]).cells.len() by {
                lemma_drop_rows_keeps(
                    old(self)@.columns[d].cells,
                    positions(rows@),
                    |v: ValueView| true,
                );
                lemma_drop_rows_keeps(
                    old(self)@.columns[e].cells,
                    positions(rows@),
                    |v: ValueView| true,
                );
            }
        }
    }
}

impl Table {
    /// Gives the rows `rows` new values, one target after the other: each
    /// target names a column and the program that computes its new cell from
    /// the cell it holds. A target that names no column changes nothing. If
    /// a program fails, or gives a value of another type than the column's,
    /// that error is returned and the table is left as it was.
    pub fn update_rows<A: FloatArithmetic>(
        &mut self,
        rows: &Vec<usize>,
        targets: &Vec<(usize, Vec<Expr>)>,
        unit: &A,
    ) -> (out: Result<(), QueryError>)
        requires
            old(self).wf(),
            forall|i: int| 0 <= i < rows@.len() ==> (#[trigger] rows@[i]) < old(self)@.rows(),
        ensures
            final(self).wf(),
            match out {
                Ok(_) => old(self)@.update(
                    positions(rows@),
                    targets_view(targets@),
                    0,
                    arith_of(unit),
                ) == Ok::<
                    TableView,
                    QueryError,
                >(final(self)@),
                Err(e) => old(self)@.update(
                    positions(rows@),
                    targets_view(targets@),
                    0,
                    arith_of(unit),
                ) == Err::<
                    TableView,
                    QueryError,
                >(e) && final(self)@ == old(self)@,
            },
    {
        let ghost wanted = targets_view(targets@);
        let ghost places = positions(rows@);
        let mut staged = self.clone();
        let mut k: usize = 0;
        while k < targets.len()
            invariant
                k <= targets.len(),
                wanted == targets_view(targets@),
                places == positions(rows@),
                *self == *old(self),
                old(self).wf(),
                staged.wf(),
                staged@.rows() == old(self)@.rows(),
                forall|i: int| 0 <= i < rows@.len() ==> (#[trigger] rows@[i]) < old(self)@.rows(),
                staged@.update(places, wanted, k as int, arith_of(unit)) == old(self)@.update(
                    places,
                    wanted,
                    0,
                    arith_of(unit),
                ),
            decreases targets.len() - k,
        {
            let c: usize = targets[k].0;
            assert(wanted[k as int] == (c as int, program_view(targets@[k as int].1@)));
            if c < staged.columns.len() {
                let ghost before = staged@;
                assert(before.columns[c as int].cells.len() == before.columns[0].cells.len());
                match update_column(&mut staged.columns[c], rows, &targets[k].1, unit) {
                    Err(e) => {
                        return Err(e);
                    },
                    Ok(_) => {},
                }
                proof {
                    let cells = staged.columns@[c as int]@.cells;
                    assert(staged@.columns =~= before.with_cells(c as int, cells).columns);
                    lemma_columns_homogeneous(staged.columns@);
                    assert forall|d: int, e: int|
                        0 <= d < staged@.columns.len() && 0 <= e
                            < staged@.columns.len() implies (#[trigger] staged@.columns[d]).cells.len()
                        == (#[trigger] staged@.columns[e]).cells.len() by {
                        assert(before.columns[d].cells.len() == before.columns[e].cells.len());
                    }
                }
            }
            k = k + 1;
        }
        *self = staged;
        Ok(())
    }
}

/// Gives the rows `rows` of `column` the value of `value`, each bound to the
/// row's own cell, and stops at the first row that fails.
fn update_column<A: FloatArithmetic>(
    column: &mut Column,
    rows: &Vec<usize>,
    value: &Vec<Expr>,
    unit: &A,
) -> (out: Result<(), QueryError>)
    requires
        forall|i: int| 0 <= i < rows@.len() ==> (#[trigger] rows@[i]) < old(column)@.cells.len(),
    ensures
        final(column)@.tag == old(column)@.tag,
        final(column)@.cells.len() == old(column)@.cells.len(),
        match out {
            Ok(_) => update_cells(
                old(column)@.cells,
                old(column)@.tag,
                positions(rows@),
                program_view(value@),
                0,
                arith_of(unit),
            ) == Ok::<Seq<ValueView>, QueryError>(final(column)@.cells),
            Err(e) => update_cells(
                old(column)@.cells,
                old(column)@.tag,
                positions(rows@),
                program_view(value@),
                0,
                arith_of(unit),
            ) == Err::<Seq<ValueView>, QueryError>(e),
        },
{
    let ghost places = positions(rows@);
    let ghost program = program_view(value@);
    let ghost tag = column@.tag;
    let mut k: usize = 0;
    while k < rows.len()
        invariant
            k <= rows.len(),
            places == positions(rows@),
            program == program_view(value@),
            tag == old(column)@.tag,
            column@.tag == tag,
            column@.cells.len() == old(column)@.cells.len(),
            forall|i: int| 0 <= i < rows@.len() ==> (#[trigger] rows@[i]) < column@.cells.len(),
            update_cells(
                column@.cells,
                tag,
                places,
                program,
                k as int,
                arith_of(unit),
            ) == update_cells(
                old(column)@.cells,
                tag,
                places,
                program,
                0,
                arith_of(unit),
            ),
        decreases rows.len() - k,
    {
        let row: usize = rows[k];
        assert(places[k as int] == row as int);
        let cell = column.get(row);
        match ExprEvaluator::compute(value, &cell, unit) {
            Err(e) => {
                return Err(e);
            },
            Ok(v) => {
                if v.to_types() != column.to_types() {
                    return Err(QueryError::TypeMismatch);
                }
                column.set(row, v);
            },
        }
        k = k + 1;
    }
    Ok(())
}

/// Every column of a vector holds cells of its own type only.
proof fn lemma_columns_homogeneous(columns: Seq<Column>)
    ensures
        forall|c: int|
            0 <= c < columns.len() ==> (#[trigger] columns_view(columns)[c]).homogeneous(),
{
    assert forall|c: int| 0 <= c < columns.len() implies (#[trigger] columns_view(
        columns,
    )[c]).homogeneous() by {
        columns[c].lemma_homogeneous();
    }
}

/// A copy of a schema.
fn copy_types(types: &Vec<Types>) -> (copy: Vec<Types>)
    ensures
        copy@ == types@,
{
    let mut copy: Vec<Types> = Vec::new();
    let mut t: usize = 0;
    while t < types.len()
        invariant
            t <= types.len(),
            copy@ == types@.take(t as int),
        decreases types.len() - t,
    {
        copy.push(types[t]);
        t = t + 1;
        assert(copy@ =~= types@.take(t as int));
    }
    assert(types@.take(t as int) =~= types@);
    copy
}

/// The positions of all rows of a table of `n` rows.
pub fn every_row(n: usize) -> (rows: Vec<usize>)
    ensures
        positions(rows@) == all_rows(n as int),
{
    let mut rows: Vec<usize> = Vec::new();
    let mut r: usize = 0;
    while r < n
        invariant
            r <= n,
            rows@.len() == r,
            forall|i: int| 0 <= i < r ==> rows@[i] == i,
        decreases n - r,
    {
        rows.push(r);
        r = r + 1;
    }
    assert(positions(rows@) =~= all_rows(n as int));
    rows
}

impl Clone for Table {
    fn clone(&self) -> (copy: Table)
        ensures
            copy@ == self@,
    {
        let mut columns: Vec<Column> = Vec::new();
        let mut c: usize = 0;
        while c < self.columns.len()
            invariant
                c <= self.columns.len(),
                columns@.len() == c,
                columns_view(columns@) == columns_view(self.columns@).take(c as int),
            decreases self.columns.len() - c,
        {
            let ghost before = columns@;
            let column = self.columns[c].clone();
            columns.push(column);
            c = c + 1;
            assert forall|d: int| 0 <= d < c implies columns_view(columns@)[d] == columns_view(
                self.columns@,
            ).take(c as int)[d] by {
                if d < c - 1 {
                    assert(columns@[d] == before[d]);
                    assert(columns_view(before)[d] == columns_view(self.columns@).take(c - 1)[d]);
                }
            }
            assert(columns_view(columns@) =~= columns_view(self.columns@).take(c as int));
        }
        assert(columns_view(self.columns@).take(c as int) =~= columns_view(self.columns@));
        let column_types = copy_types(&self.column_types);
        Table { columns, column_types }
    }
}

/// The rows that a search gives are in strictly ascending order and lie among
/// the rows searched.
pub proof fn lemma_matching_rows_ascending(
    cells: Seq<ValueView>,
    condition: Seq<ExprView>,
    upto: int,
    arith: spec_fn(Arithmetic, u32, u32) -> u32,
)
    requires
        matching_rows(cells, condition, upto, arith) is Ok,
    ensures
        ascending_below(matching_rows(cells, condition, upto, arith)->Ok_0, upto),
    decreases upto,
{
    if upto > 0 {
        lemma_matching_rows_ascending(cells, condition, upto - 1, arith);
    }
}

/// Once a row has failed to evaluate, the search over more rows fails with
/// the same error.
pub proof fn lemma_matching_rows_error(
    cells: Seq<ValueView>,
    condition: Seq<ExprView>,
    failed: int,
    upto: int,
    arith: spec_fn(Arithmetic, u32, u32) -> u32,
)
    requires
        failed <= upto,
        matching_rows(cells, condition, failed, arith) is Err,
    ensures
        matching_rows(cells, condition, upto, arith) == matching_rows(
            cells,
            condition,
            failed,
            arith,
        ),
    decreases upto - failed,
{
    if failed < upto {
        lemma_matching_rows_error(cells, condition, failed, upto - 1, arith);
    }
}

} // verus!
