//! The queries that a client can send, and their execution on a database.

use vstd::prelude::*;
use crate::database::{
    spec_delete,
    spec_get_table,
    spec_insert,
    spec_select,
    spec_update,
    spec_update_all,
    Database,
};
use crate::expr::{is_trivial, program_view, Expr, ExprEvaluator, FloatArithmetic};
use crate::log::{Level, LogRecord, Operation, Subject};
use crate::query_error::QueryError;
use crate::table::{rectangular, columns_view, targets_view, values_view, Table, TableView};
use crate::values::{Column, ColumnView, Types, Value};

verus! {

/// One request of a client.
#[derive(Debug, PartialEq)]
#[allow(inconsistent_fields)]
pub enum Query {
    Select { table: usize, columns: usize, condition: Vec<Expr> },
    SelectTable { table: usize },
    Insert { table: usize, values: Vec<Value> },
    Update {
        table: usize,
        condition_column: usize,
        targets: Vec<(usize, Vec<Expr>)>,
        condition: Vec<Expr>,
    },
    UpdateAll { table: usize, targets: Vec<(usize, Vec<Expr>)> },
    Delete { table: usize, column: usize, condition: Vec<Expr> },
    AddTable { columns: Vec<Types> },
    DropTable { id: usize },
    Exit,
    FlushLogs,
}

/// What the server does after a query has been executed.
#[derive(Debug, PartialEq)]
pub enum Reply {
    /// Send a table, or the error that stood in its way.
    Table(Result<Table, QueryError>),
    /// Send whether the change was made.
    Status(Result<(), QueryError>),
    /// Send nothing.
    Silent,
    /// Flush the log and send nothing.
    Flush,
    /// End the session.
    Exit,
}

impl Query {
    /// What the query asks for and on what, if it asks for an operation on
    /// the database. A new table takes the position `tables`, the number of
    /// tables there are.
    pub open spec fn spec_subject(self, tables: usize) -> Option<Subject> {
        match self {
            Query::Select { table, columns, condition } => Some(
                Subject {
                    operation: Operation::Select,
                    table,
                    column: Some(columns),
                    no_condition: is_trivial(program_view(condition@)),
                },
            ),
            Query::SelectTable { table } => Some(
                Subject {
                    operation: Operation::SelectTable,
                    table,
                    column: None,
                    no_condition: false,
                },
            ),
            Query::Insert { table, .. } => Some(
                Subject { operation: Operation::Insert, table, column: None, no_condition: false },
            ),
            Query::Update { table, condition_column, condition, .. } => Some(
                Subject {
                    operation: Operation::Update,
                    table,
                    column: Some(condition_column),
                    no_condition: is_trivial(program_view(condition@)),
                },
            ),
            Query::UpdateAll { table, .. } => Some(
                Subject {
                    operation: Operation::UpdateAll,
                    table,
                    column: None,
                    no_condition: false,
                },
            ),
            Query::Delete { table, column, condition } => Some(
                Subject {
                    operation: Operation::Delete,
                    table,
                    column: Some(column),
                    no_condition: is_trivial(program_view(condition@)),
                },
            ),
            Query::AddTable { .. } => Some(
                Subject {
                    operation: Operation::AddTable,
                    table: tables,
                    column: None,
                    no_condition: false,
                },
            ),
            Query::DropTable { id } => Some(
                Subject {
                    operation: Operation::DropTable,
                    table: id,
                    column: None,
                    no_condition: false,
                },
            ),
            Query::Exit => None,
            Query::FlushLogs => None,
        }
    }

    /// What the query asks for and on what, if it asks for an operation on
    /// the database. A new table takes the position `tables`, the number of
    /// tables there are.
    pub fn subject(&self, tables: usize) -> (out: Option<Subject>)
        ensures
            out == self.spec_subject(tables),
    {
        match self {
            Query::Select { table, columns, condition } => Some(
                Subject {
                    operation: Operation::Select,
                    table: *table,
                    column: Some(*columns),
                    no_condition: ExprEvaluator::trivial(condition),
                },
            ),
            Query::SelectTable { table } => Some(
                Subject {
                    operation: Operation::SelectTable,
                    table: *table,
                    column: None,
                    no_condition: false,
                },
            ),
            Query::Insert { table, .. } => Some(
                Subject {
                    operation: Operation::Insert,
                    table: *table,
                    column: None,
                    no_condition: false,
                },
            ),
            Query::Update { table, condition_column, condition, .. } => Some(
                Subject {
                    operation: Operation::Update,
                    table: *table,
                    column: Some(*condition_column),
                    no_condition: ExprEvaluator::trivial(condition),
                },
            ),
            Query::UpdateAll { table, .. } => Some(
                Subject {
                    operation: Operation::UpdateAll,
                    table: *table,
                    column: None,
                    no_condition: false,
                },
            ),
            Query::Delete { table, column, condition } => Some(
                Subject {
                    operation: Operation::Delete,
                    table: *table,
                    column: Some(*column),
                    no_condition: ExprEvaluator::trivial(condition),
                },
            ),
            Query::AddTable { .. } => Some(
                Subject {
                    operation: Operation::AddTable,
                    table: tables,
                    column: None,
                    no_condition: false,
                },
            ),
            Query::DropTable { id } => Some(
                Subject {
                    operation: Operation::DropTable,
                    table: *id,
                    column: None,
                    no_condition: false,
                },
            ),
            Query::Exit => None,
            Query::FlushLogs => None,
        }
    }
}

impl Reply {
    /// The error that the reply carries, if it carries one.
    pub open spec fn spec_failure(self) -> Option<QueryError> {
        match self {
            Reply::Table(Err(e)) => Some(e),
            Reply::Status(Err(e)) => Some(e),
            _ => None,
        }
    }

    /// The error that the reply carries, if it carries one.
    pub fn failure(&self) -> (out: Option<QueryError>)
        ensures
            out == self.spec_failure(),
    {
        match self {
            Reply::Table(Err(e)) => Some(*e),
            Reply::Status(Err(e)) => Some(*e),
            _ => None,
        }
    }

    /// The number of rows of the table that the reply carries; 0 where it
    /// carries none.
    pub open spec fn spec_rows(self) -> nat {
        match self {
            Reply::Table(Ok(table)) => table@.rows(),
            _ => 0,
        }
    }

    /// The one record that the operation on `subject` leaves in the log when
    /// it is answered by this reply: an `Error` under the title of the error
    /// where it failed, an `Info` under the title of the operation where it
    /// did not.
    pub fn record(&self, subject: &Subject) -> (record: LogRecord)
        ensures
            match self.spec_failure() {
                Some(e) => record.level == Level::Error && record.title@ == e.spec_title()
                    && record.description@ == subject.spec_failure_text(e),
                None => record.level == Level::Info && record.title@
                    == subject.operation.spec_title() && record.description@
                    == subject.spec_success_text(self.spec_rows()),
            },
    {
        match self {
            Reply::Table(Err(e)) => subject.failed(*e),
            Reply::Status(Err(e)) => subject.failed(*e),
            Reply::Table(Ok(table)) => subject.succeeded(table.row_count()),
            _ => subject.succeeded(0),
        }
    }
}

/// Columns without rows, one for each tag.
pub open spec fn empty_columns(tags: Seq<Types>) -> Seq<ColumnView> {
    Seq::new(tags.len(), |c: int| ColumnView { tag: tags[c], cells: Seq::empty() })
}

/// The reply carries the table, or the error, that `expected` gives.
pub open spec fn replies_table(reply: Reply, expected: Result<TableView, QueryError>) -> bool {
    match reply {
        Reply::Table(Ok(table)) => table.wf() && expected == Ok::<TableView, QueryError>(table@),
        Reply::Table(Err(e)) => expected == Err::<TableView, QueryError>(e),
        _ => false,
    }
}

/// The reply reports the change that `expected` gives: on success the
/// database is `after`, on an error it is still `before`.
pub open spec fn replies_status(
    reply: Reply,
    expected: Result<Seq<TableView>, QueryError>,
    before: Seq<TableView>,
    after: Seq<TableView>,
) -> bool {
    match reply {
        Reply::Status(Ok(_)) => expected == Ok::<Seq<TableView>, QueryError>(after),
        Reply::Status(Err(e)) => expected == Err::<Seq<TableView>, QueryError>(e) && after
            == before,
        _ => false,
    }
}

/// The outcome of dropping the table at position `id`.
pub open spec fn spec_drop_table(db: Seq<TableView>, id: int) -> Result<
    Seq<TableView>,
    QueryError,
> {
    if 0 <= id < db.len() {
        Ok(db.remove(id))
    } else {
        Err(QueryError::TableNotFound)
    }
}

/// Columns without rows, one for each tag.
pub fn new_columns(tags: &Vec<Types>) -> (columns: Vec<Column>)
    ensures
        columns_view(columns@) == empty_columns(tags@),
        rectangular(columns_view(columns@)),
{
    let mut columns: Vec<Column> = Vec::new();
    let mut c: usize = 0;
    while c < tags.len()
        invariant
            c <= tags.len(),
            columns@.len() == c,
            forall|d: int| 0 <= d < c ==> (#[trigger] columns@[d])@ == empty_columns(tags@)[d],
        decreases tags.len() - c,
    {
        columns.push(Column::new(tags[c]));
        c = c + 1;
    }
    assert(columns_view(columns@) =~= empty_columns(tags@));
    columns
}

impl<A: FloatArithmetic> Database<A> {
    /// Executes one query and says what to answer. A query that reads
    /// leaves the database as it is; one that fails does too. Dropping a
    /// table that does not exist is `TableNotFound`.
    pub fn execute(&mut self, query: Query) -> (reply: Reply)
        requires
            old(self).wf(),
        ensures
            final(self).wf(),
            final(self).float_unit() == old(self).float_unit(),
            match query {
                Query::Select { table, columns, condition } => final(self)@ == old(self)@
                    && replies_table(
                    reply,
                    spec_select(
                        old(self)@,
                        table as int,
                        columns as int,
                        program_view(condition@),
                        old(self).arith(),
                    ),
                ),
                Query::SelectTable { table } => final(self)@ == old(self)@ && replies_table(
                    reply,
                    spec_get_table(old(self)@, table as int),
                ),
                Query::Insert { table, values } => replies_status(
                    reply,
                    spec_insert(old(self)@, table as int, values_view(values@)),
                    old(self)@,
                    final(self)@,
                ),
                Query::Update { table, condition_column, targets, condition } => replies_status(
                    reply,
                    spec_update(
                        old(self)@,
                        table as int,
                        condition_column as int,
                        targets_view(targets@),
                        program_view(condition@),
                        old(self).arith(),
                    ),
                    old(self)@,
                    final(self)@,
                ),
                Query::UpdateAll { table, targets } => replies_status(
                    reply,
                    spec_update_all(
                        old(self)@,
                        table as int,
                        targets_view(targets@),
                        old(self).arith(),
                    ),
                    old(self)@,
                    final(self)@,
                ),
                Query::Delete { table, column, condition } => replies_status(
                    reply,
                    spec_delete(
                        old(self)@,
                        table as int,
                        column as int,
                        program_view(condition@),
                        old(self).arith(),
                    ),
                    old(self)@,
                    final(self)@,
                ),
                Query::AddTable { columns } => reply == Reply::Silent && final(self)@ == old(
                    self,
                )@.push(TableView::of(empty_columns(columns@))),
                Query::DropTable { id } => replies_status(
                    reply,
                    spec_drop_table(old(self)@, id as int),
                    old(self)@,
                    final(self)@,
                ),
                Query::Exit => reply == Reply::Exit && final(self)@ == old(self)@,
                Query::FlushLogs => reply == Reply::Flush && final(self)@ == old(self)@,
            },
    {
        match query {
            Query::Select { table, columns, condition } => Reply::Table(
                self.select(table, columns, condition),
            ),
            Query::SelectTable { table } => Reply::Table(self.select_table(table)),
            Query::Insert { table, values } => Reply::Status(self.insert(table, values)),
            Query::Update { table, condition_column, targets, condition } => Reply::Status(
                self.update(table, condition_column, targets, condition),
            ),
            Query::UpdateAll { table, targets } => Reply::Status(self.update_all(table, targets)),
            Query::Delete { table, column, condition } => Reply::Status(
                self.delete(table, column, condition),
            ),
            Query::AddTable { columns } => {
                let fresh = new_columns(&columns);
                self.add_table(fresh);
                Reply::Silent
            },
            Query::DropTable { id } => {
                if id < self.table_count() {
                    self.drop_table(id);
                    Reply::Status(Ok(()))
                } else {
                    Reply::Status(Err(QueryError::TableNotFound))
                }
            },
            Query::Exit => Reply::Exit,
            Query::FlushLogs => Reply::Flush,
        }
    }
}

} // verus!
