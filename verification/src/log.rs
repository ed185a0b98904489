//! The records that the operations leave in the log, as text. Writing them
//! is left to the caller.

use vstd::prelude::*;
use crate::query_error::QueryError;

verus! {

/// How much a record matters.
#[derive(Clone, Copy, Debug, PartialEq, Eq, Structural)]
pub enum Level {
    Error,
    Warn,
    Info,
    Debug,
}

impl Level {
    /// The word that starts a line of this level.
    pub open spec fn spec_label(self) -> Seq<char> {
        match self {
            Level::Error => "ERROR!"@,
            Level::Warn => "WARNING!"@,
            Level::Info => "INFO"@,
            Level::Debug => "DEBUG"@,
        }
    }

    /// The word that starts a line of this level.
    pub fn label(&self) -> (text: String)
        ensures
            text@ == self.spec_label(),
    {
        match self {
            Level::Error => "ERROR!".to_owned(),
            Level::Warn => "WARNING!".to_owned(),
            Level::Info => "INFO".to_owned(),
            Level::Debug => "DEBUG".to_owned(),
        }
    }
}

/// The operations that leave a record.
#[derive(Clone, Copy, Debug, PartialEq, Eq, Structural)]
pub enum Operation {
    Select,
    SelectTable,
    Insert,
    Update,
    UpdateAll,
    Delete,
    AddTable,
    DropTable,
}

impl Operation {
    /// The title of the record of a success.
    pub open spec fn spec_title(self) -> Seq<char> {
        match self {
            Operation::Select => "Select"@,
            Operation::SelectTable => "Select Table"@,
            Operation::Insert => "Insert"@,
            Operation::Update => "Update"@,
            Operation::UpdateAll => "Update All"@,
            Operation::Delete => "Delete"@,
            Operation::AddTable => "Table Added"@,
            Operation::DropTable => "Table Dropped"@,
        }
    }

    /// The name that a failure is logged under.
    pub open spec fn spec_name(self) -> Seq<char> {
        match self {
            Operation::Select => "select"@,
            Operation::SelectTable => "select_table"@,
            Operation::Insert => "insert"@,
            Operation::Update => "update"@,
            Operation::UpdateAll => "update_all"@,
            Operation::Delete => "delete"@,
            Operation::AddTable => "add_table"@,
            Operation::DropTable => "drop_table"@,
        }
    }

    /// The title of the record of a success.
    pub fn title(&self) -> (text: String)
        ensures
            text@ == self.spec_title(),
    {
        match self {
            Operation::Select => "Select".to_owned(),
            Operation::SelectTable => "Select Table".to_owned(),
            Operation::Insert => "Insert".to_owned(),
            Operation::Update => "Update".to_owned(),
            Operation::UpdateAll => "Update All".to_owned(),
            Operation::Delete => "Delete".to_owned(),
            Operation::AddTable => "Table Added".to_owned(),
            Operation::DropTable => "Table Dropped".to_owned(),
        }
    }

    /// The name that a failure is logged under.
    pub fn name(&self) -> (text: String)
        ensures
            text@ == self.spec_name(),
    {
        match self {
            Operation::Select => "select".to_owned(),
            Operation::SelectTable => "select_table".to_owned(),
            Operation::Insert => "insert".to_owned(),
            Operation::Update => "update".to_owned(),
            Operation::UpdateAll => "update_all".to_owned(),
            Operation::Delete => "delete".to_owned(),
            Operation::AddTable => "add_table".to_owned(),
            Operation::DropTable => "drop_table".to_owned(),
        }
    }
}

/// One record of the log.
#[derive(Debug, PartialEq)]
pub struct LogRecord {
    pub level: Level,
    pub title: String,
    pub description: String,
}

/// The line of a record: level, title and description, ended by a newline.
pub open spec fn spec_line(level: Level, title: Seq<char>, description: Seq<char>) -> Seq<char> {
    level.spec_label() + " "@ + title + ": "@ + description + "\n"@
}

impl LogRecord {
    /// The one record that an operation leaves: at level `Info` under the
    /// operation's title where it succeeded, at level `Error` under the
    /// error's title where it failed.
    pub fn of(operation: Operation, failure: Option<QueryError>, description: String) -> (record:
        LogRecord)
        ensures
            record.description@ == description@,
            match failure {
                None => record.level == Level::Info && record.title@ == operation.spec_title(),
                Some(e) => record.level == Level::Error && record.title@ == e.spec_title(),
            },
    {
        match failure {
            None => LogRecord { level: Level::Info, title: operation.title(), description },
            Some(e) => LogRecord { level: Level::Error, title: e.title(), description },
        }
    }

    /// The record as one line of the log.
    pub fn line(&self) -> (text: String)
        ensures
            text@ == spec_line(self.level, self.title@, self.description@),
    {
        let mut text = self.level.label();
        text.append(" ");
        text.append(self.title.as_str());
        text.append(": ");
        text.append(self.description.as_str());
        text.append("\n");
        text
    }
}

/// The numeral of one digit.
pub open spec fn digit_text(d: nat) -> Seq<char> {
    if d == 0 {
        "0"@
    } else if d == 1 {
        "1"@
    } else if d == 2 {
        "2"@
    } else if d == 3 {
        "3"@
    } else if d == 4 {
        "4"@
    } else if d == 5 {
        "5"@
    } else if d == 6 {
        "6"@
    } else if d == 7 {
        "7"@
    } else if d == 8 {
        "8"@
    } else {
        "9"@
    }
}

/// The decimal numeral of `n`, without leading zeros.
pub open spec fn decimal_text(n: nat) -> Seq<char>
    decreases n,
{
    if n < 10 {
        digit_text(n)
    } else {
        decimal_text(n / 10) + digit_text(n % 10)
    }
}

fn digit(d: usize) -> (text: &'static str)
    requires
        d < 10,
    ensures
        text@ == digit_text(d as nat),
{
    if d == 0 {
        "0"
    } else if d == 1 {
        "1"
    } else if d == 2 {
        "2"
    } else if d == 3 {
        "3"
    } else if d == 4 {
        "4"
    } else if d == 5 {
        "5"
    } else if d == 6 {
        "6"
    } else if d == 7 {
        "7"
    } else if d == 8 {
        "8"
    } else {
        "9"
    }
}

/// The decimal numeral of `n`, without leading zeros.
pub fn decimal(n: usize) -> (text: String)
    ensures
        text@ == decimal_text(n as nat),
    decreases n,
{
    if n < 10 {
        digit(n).to_owned()
    } else {
        let mut text = decimal(n / 10);
        text.append(digit(n % 10));
        text
    }
}

/// What an operation was asked to work on.
#[derive(Clone, Copy, Debug, PartialEq, Eq)]
pub struct Subject {
    pub operation: Operation,
    /// The position of the table.
    pub table: usize,
    /// The position of the column, where the operation names one.
    pub column: Option<usize>,
    /// The operation takes a condition, and the one given was empty or a
    /// bare leaf.
    pub no_condition: bool,
}

/// How a failure is described.
#[derive(Clone, Copy, Debug, PartialEq, Eq)]
pub enum FailureKind {
    /// The table was not found.
    NoTable,
    /// The column, at the position given, was not found.
    NoColumn(usize),
    /// An insert of another number of values than there are columns.
    InsertSize,
    /// An insert of values of other types than the columns'.
    InsertTypes,
    /// No condition was given.
    NoCondition,
    /// An evaluation failed.
    Evaluation,
}

impl Subject {
    /// The table, and the column if there is one, in the words of a failure.
    pub open spec fn spec_place(self) -> Seq<char> {
        match self.column {
            Some(c) => "table "@ + decimal_text(self.table as nat) + ", column "@ + decimal_text(
                c as nat,
            ),
            None => "table "@ + decimal_text(self.table as nat),
        }
    }

    /// The table, and the column if there is one, in the words of a success.
    pub open spec fn spec_target(self) -> Seq<char> {
        match self.column {
            Some(c) => "table "@ + decimal_text(self.table as nat) + " with column "@
                + decimal_text(c as nat),
            None => "table "@ + decimal_text(self.table as nat),
        }
    }

    /// How the failure of the operation with `error` is described.
    pub open spec fn spec_failure_kind(self, error: QueryError) -> FailureKind {
        if error == QueryError::TableNotFound {
            FailureKind::NoTable
        } else if error == QueryError::ColumnNotFound && self.column is Some {
            FailureKind::NoColumn(self.column->Some_0)
        } else if self.operation == Operation::Insert && error == QueryError::SizeMismatch {
            FailureKind::InsertSize
        } else if self.operation == Operation::Insert && error == QueryError::TypeMismatch {
            FailureKind::InsertTypes
        } else if error == QueryError::NoOperation && self.no_condition {
            FailureKind::NoCondition
        } else {
            FailureKind::Evaluation
        }
    }

    /// The description of the record of a failure.
    pub open spec fn spec_failure_text(self, error: QueryError) -> Seq<char> {
        let table = decimal_text(self.table as nat);
        match self.spec_failure_kind(error) {
            FailureKind::NoTable => "table "@ + table + " not found"@,
            FailureKind::NoColumn(c) => "column "@ + decimal_text(c as nat)
                + " not found in table "@ + table,
            FailureKind::InsertSize => "insertion on table "@ + table
                + ": given value size is not the same as column size"@,
            FailureKind::InsertTypes => "insertion on table "@ + table
                + ": given value types are not the same as column types"@,
            FailureKind::NoCondition => self.operation.spec_name() + " on table "@ + table
                + ": no condition given"@,
            FailureKind::Evaluation => self.operation.spec_name() + " on "@ + self.spec_place()
                + ": "@ + error.spec_phrase(),
        }
    }

    /// The description of the record of a success. `rows` is the number of
    /// rows returned, for the operations that return a table.
    pub open spec fn spec_success_text(self, rows: nat) -> Seq<char> {
        match self.operation {
            Operation::Select | Operation::SelectTable => self.operation.spec_title()
                + " query executed on "@ + self.spec_target() + " and "@ + decimal_text(rows)
                + " rows returned"@,
            Operation::Insert => "Insert query executed on table "@ + decimal_text(
                self.table as nat,
            ) + " "@,
            Operation::AddTable => "added table "@ + decimal_text(self.table as nat)
                + " to database"@,
            Operation::DropTable => "dropped table "@ + decimal_text(self.table as nat)
                + " from database"@,
            _ => self.operation.spec_title() + " query executed on "@ + self.spec_target(),
        }
    }

    /// The table, and the column if there is one, in the words of a failure.
    pub fn place(&self) -> (text: String)
        ensures
            text@ == self.spec_place(),
    {
        let mut text = "table ".to_owned();
        text.append(decimal(self.table).as_str());
        match self.column {
            Some(c) => {
                text.append(", column ");
                text.append(decimal(c).as_str());
            },
            None => {},
        }
        text
    }

    /// The table, and the column if there is one, in the words of a success.
    pub fn target(&self) -> (text: String)
        ensures
            text@ == self.spec_target(),
    {
        let mut text = "table ".to_owned();
        text.append(decimal(self.table).as_str());
        match self.column {
            Some(c) => {
                text.append(" with column ");
                text.append(decimal(c).as_str());
            },
            None => {},
        }
        text
    }

    /// How the failure of the operation with `error` is described.
    pub fn failure_kind(&self, error: QueryError) -> (kind: FailureKind)
        ensures
            kind == self.spec_failure_kind(error),
    {
        match (error, self.column, self.operation) {
            (QueryError::TableNotFound, _, _) => FailureKind::NoTable,
            (QueryError::ColumnNotFound, Some(c), _) => FailureKind::NoColumn(c),
            (QueryError::SizeMismatch, _, Operation::Insert) => FailureKind::InsertSize,
            (QueryError::TypeMismatch, _, Operation::Insert) => FailureKind::InsertTypes,
            (QueryError::NoOperation, _, _) => if self.no_condition {
                FailureKind::NoCondition
            } else {
                FailureKind::Evaluation
            },
            _ => FailureKind::Evaluation,
        }
    }

    /// The record of a failure of the operation: an `Error` under the title
    /// of the error.
    pub fn failed(&self, error: QueryError) -> (record: LogRecord)
        ensures
            record.level == Level::Error,
            record.title@ == error.spec_title(),
            record.description@ == self.spec_failure_text(error),
    {
        let table = decimal(self.table);
        let text = match self.failure_kind(error) {
            FailureKind::NoTable => {
                let mut text = "table ".to_owned();
                text.append(table.as_str());
                text.append(" not found");
                text
            },
            FailureKind::NoColumn(c) => {
                let mut text = "column ".to_owned();
                text.append(decimal(c).as_str());
                text.append(" not found in table ");
                text.append(table.as_str());
                text
            },
            FailureKind::InsertSize => {
                let mut text = "insertion on table ".to_owned();
                text.append(table.as_str());
                text.append(": given value size is not the same as column size");
                text
            },
            FailureKind::InsertTypes => {
                let mut text = "insertion on table ".to_owned();
                text.append(table.as_str());
                text.append(": given value types are not the same as column types");
                text
            },
            FailureKind::NoCondition => {
                let mut text = self.operation.name();
                text.append(" on table ");
                text.append(table.as_str());
                text.append(": no condition given");
                text
            },
            FailureKind::Evaluation => {
                let mut text = self.operation.name();
                text.append(" on ");
                text.append(self.place().as_str());
                text.append(": ");
                text.append(error.phrase().as_str());
                text
            },
        };
        LogRecord::of(self.operation, Some(error), text)
    }

    /// The record of a success of the operation: an `Info` under the title
    /// of the operation. `rows` is the number of rows returned, for the
    /// operations that return a table.
    pub fn succeeded(&self, rows: usize) -> (record: LogRecord)
        ensures
            record.level == Level::Info,
            record.title@ == self.operation.spec_title(),
            record.description@ == self.spec_success_text(rows as nat),
    {
        let text = match self.operation {
            Operation::Select | Operation::SelectTable => {
                let mut text = self.operation.title();
                text.append(" query executed on ");
                text.append(self.target().as_str());
                text.append(" and ");
                text.append(decimal(rows).as_str());
                text.append(" rows returned");
                text
            },
            Operation::Insert => {
                let mut text = "Insert query executed on table ".to_owned();
                text.append(decimal(self.table).as_str());
                text.append(" ");
                text
            },
            Operation::AddTable => {
                let mut text = "added table ".to_owned();
                text.append(decimal(self.table).as_str());
                text.append(" to database");
                text
            },
            Operation::DropTable => {
                let mut text = "dropped table ".to_owned();
                text.append(decimal(self.table).as_str());
                text.append(" from database");
                text
            },
            _ => {
                let mut text = self.operation.title();
                text.append(" query executed on ");
                text.append(self.target().as_str());
                text
            },
        };
        LogRecord::of(self.operation, None, text)
    }
}

} // verus!
