//! The closed set of errors that a query can end in.

use vstd::prelude::*;

verus! {

/// Why a query was not carried out.
#[derive(Clone, Copy, Debug, PartialEq, Eq, Structural)]
pub enum QueryError {
    /// Operand types disagree, or the operator does not accept them.
    TypeMismatch,
    /// The operator cannot be applied to the operands it was given.
    OperatorMismatch,
    /// The expression is empty, a bare leaf, or leaves no single result.
    NoOperation,
    /// A cell leaf was evaluated without a binding.
    CellValueNotSet,
    /// No table at the given position.
    TableNotFound,
    /// The number of values differs from the number of columns.
    SizeMismatch,
    /// An operator found fewer operands than it takes.
    StackUnderflow,
    /// No column at the given position.
    ColumnNotFound,
    /// The message could not be decoded into a query.
    InvalidQuery,
}

impl QueryError {
    /// The short name of the error, as it heads a log record.
    pub open spec fn spec_title(self) -> Seq<char> {
        match self {
            QueryError::TypeMismatch => "Type Mismatch"@,
            QueryError::OperatorMismatch => "Operator Mismatch"@,
            QueryError::NoOperation => "No Operation"@,
            QueryError::CellValueNotSet => "Cell Value Not Set"@,
            QueryError::TableNotFound => "Table Not Found"@,
            QueryError::SizeMismatch => "Size Mismatch"@,
            QueryError::StackUnderflow => "Stack Underflow"@,
            QueryError::ColumnNotFound => "Column Not Found"@,
            QueryError::InvalidQuery => "Invalid Query"@,
        }
    }

    /// The name of the error in the words of a description.
    pub open spec fn spec_phrase(self) -> Seq<char> {
        match self {
            QueryError::TypeMismatch => "type mismatch"@,
            QueryError::OperatorMismatch => "operator mismatch"@,
            QueryError::NoOperation => "no operation"@,
            QueryError::CellValueNotSet => "cell value not set"@,
            QueryError::TableNotFound => "table not found"@,
            QueryError::SizeMismatch => "size mismatch"@,
            QueryError::StackUnderflow => "stack underflow"@,
            QueryError::ColumnNotFound => "column not found"@,
            QueryError::InvalidQuery => "invalid query"@,
        }
    }

    /// The text shown to a user for this error.
    pub open spec fn spec_message(self) -> Seq<char> {
        match self {
            QueryError::TypeMismatch => "Query Error: Type Mismatch"@,
            QueryError::OperatorMismatch => "Query Error: Operator Mismatch"@,
            QueryError::NoOperation => "Query Error: No Operation"@,
            QueryError::CellValueNotSet => "Query Error: Column Value Not Set"@,
            QueryError::TableNotFound => "Query Error: Table Not Found"@,
            QueryError::SizeMismatch => "Query Error: Size Mismatch"@,
            QueryError::StackUnderflow => "Query Error: Stack Underflow"@,
            QueryError::ColumnNotFound => "Query Error: Column Not Found"@,
            QueryError::InvalidQuery => "Query Error: Invalid Query"@,
        }
    }

    /// The short name of the error, as it heads a log record.
    pub fn title(&self) -> (text: String)
        ensures
            text@ == self.spec_title(),
    {
        match self {
            QueryError::TypeMismatch => "Type Mismatch".to_owned(),
            QueryError::OperatorMismatch => "Operator Mismatch".to_owned(),
            QueryError::NoOperation => "No Operation".to_owned(),
            QueryError::CellValueNotSet => "Cell Value Not Set".to_owned(),
            QueryError::TableNotFound => "Table Not Found".to_owned(),
            QueryError::SizeMismatch => "Size Mismatch".to_owned(),
            QueryError::StackUnderflow => "Stack Underflow".to_owned(),
            QueryError::ColumnNotFound => "Column Not Found".to_owned(),
            QueryError::InvalidQuery => "Invalid Query".to_owned(),
        }
    }

    /// The name of the error in the words of a description.
    pub fn phrase(&self) -> (text: String)
        ensures
            text@ == self.spec_phrase(),
    {
        match self {
            QueryError::TypeMismatch => "type mismatch".to_owned(),
            QueryError::OperatorMismatch => "operator mismatch".to_owned(),
            QueryError::NoOperation => "no operation".to_owned(),
            QueryError::CellValueNotSet => "cell value not set".to_owned(),
            QueryError::TableNotFound => "table not found".to_owned(),
            QueryError::SizeMismatch => "size mismatch".to_owned(),
            QueryError::StackUnderflow => "stack underflow".to_owned(),
            QueryError::ColumnNotFound => "column not found".to_owned(),
            QueryError::InvalidQuery => "invalid query".to_owned(),
        }
    }

    /// The text shown to a user for this error.
    pub fn message(&self) -> (text: String)
        ensures
            text@ == self.spec_message(),
    {
        match self {
            QueryError::TypeMismatch => "Query Error: Type Mismatch".to_owned(),
            QueryError::OperatorMismatch => "Query Error: Operator Mismatch".to_owned(),
            QueryError::NoOperation => "Query Error: No Operation".to_owned(),
            QueryError::CellValueNotSet => "Query Error: Column Value Not Set".to_owned(),
            QueryError::TableNotFound => "Query Error: Table Not Found".to_owned(),
            QueryError::SizeMismatch => "Query Error: Size Mismatch".to_owned(),
            QueryError::StackUnderflow => "Query Error: Stack Underflow".to_owned(),
            QueryError::ColumnNotFound => "Query Error: Column Not Found".to_owned(),
            QueryError::InvalidQuery => "Query Error: Invalid Query".to_owned(),
        }
    }
}

} // verus!
