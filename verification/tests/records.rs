use minase::database::Database;
use minase::expr::{Arithmetic, Expr, FloatArithmetic};
use minase::frame::{frame, length_prefix, prefix_length};
use minase::log::{decimal, FailureKind, Level, LogRecord, Operation, Subject};
use minase::query::{new_columns, Query, Reply};
use minase::query_error::QueryError;
use minase::values::{Column, Types, Value};

struct Machine;

impl FloatArithmetic for Machine {
    fn spec_arith(&self, op: Arithmetic, a: u32, b: u32) -> u32 {
        self.arith(op, a, b)
    }

    fn arith(&self, op: Arithmetic, a: u32, b: u32) -> u32 {
        let (x, y) = (f32::from_bits(a), f32::from_bits(b));
        bits_of(match op {
            Arithmetic::Add => x + y,
            Arithmetic::Sub => x - y,
            Arithmetic::Mul => x * y,
            Arithmetic::Div => x / y,
        })
    }
}

/// The bits of a number; one and the same pattern for every result that is
/// not a number, so that equal operands always give equal bits.
fn bits_of(x: f32) -> u32 {
    if x.is_nan() {
        f32::NAN.to_bits()
    } else {
        x.to_bits()
    }
}

fn every_error() -> Vec<QueryError> {
    vec![
        QueryError::TypeMismatch,
        QueryError::OperatorMismatch,
        QueryError::NoOperation,
        QueryError::CellValueNotSet,
        QueryError::TableNotFound,
        QueryError::SizeMismatch,
        QueryError::StackUnderflow,
        QueryError::ColumnNotFound,
        QueryError::InvalidQuery,
    ]
}

#[test]
fn error_messages() {
    let expected = vec![
        "Query Error: Type Mismatch",
        "Query Error: Operator Mismatch",
        "Query Error: No Operation",
        "Query Error: Column Value Not Set",
        "Query Error: Table Not Found",
        "Query Error: Size Mismatch",
        "Query Error: Stack Underflow",
        "Query Error: Column Not Found",
        "Query Error: Invalid Query",
    ];
    let got: Vec<String> = every_error().iter().map(|e| e.message()).collect();
    assert_eq!(got, expected);
}

#[test]
fn error_titles() {
    let expected = vec![
        "Type Mismatch",
        "Operator Mismatch",
        "No Operation",
        "Cell Value Not Set",
        "Table Not Found",
        "Size Mismatch",
        "Stack Underflow",
        "Column Not Found",
        "Invalid Query",
    ];
    let got: Vec<String> = every_error().iter().map(|e| e.title()).collect();
    assert_eq!(got, expected);
}

#[test]
fn level_labels() {
    assert_eq!(Level::Error.label(), "ERROR!");
    assert_eq!(Level::Warn.label(), "WARNING!");
    assert_eq!(Level::Info.label(), "INFO");
    assert_eq!(Level::Debug.label(), "DEBUG");
}

#[test]
fn operation_titles_and_names() {
    let operations = vec![
        (Operation::Select, "Select", "select"),
        (Operation::SelectTable, "Select Table", "select_table"),
        (Operation::Insert, "Insert", "insert"),
        (Operation::Update, "Update", "update"),
        (Operation::UpdateAll, "Update All", "update_all"),
        (Operation::Delete, "Delete", "delete"),
        (Operation::AddTable, "Table Added", "add_table"),
        (Operation::DropTable, "Table Dropped", "drop_table"),
    ];
    for (operation, title, name) in operations {
        assert_eq!(operation.title(), title);
        assert_eq!(operation.name(), name);
    }
}

#[test]
fn record_of_a_success_is_an_info() {
    let record = LogRecord::of(Operation::Insert, None, "Insert query executed on table 0 ".to_string());
    assert_eq!(record.level, Level::Info);
    assert_eq!(record.title, "Insert");
    assert_eq!(record.line(), "INFO Insert: Insert query executed on table 0 \n");
}

#[test]
fn record_of_a_failure_is_an_error_under_the_kind() {
    let record = LogRecord::of(
        Operation::Select,
        Some(QueryError::ColumnNotFound),
        "column 4 not found in table 0".to_string(),
    );
    assert_eq!(record.level, Level::Error);
    assert_eq!(record.title, "Column Not Found");
    assert_eq!(record.description, "column 4 not found in table 0");
    assert_eq!(record.line(), "ERROR! Column Not Found: column 4 not found in table 0\n");
}

#[test]
fn record_line_of_every_level() {
    let line = |level: Level| {
        LogRecord { level, title: "T".to_string(), description: "d".to_string() }.line()
    };
    assert_eq!(line(Level::Error), "ERROR! T: d\n");
    assert_eq!(line(Level::Warn), "WARNING! T: d\n");
    assert_eq!(line(Level::Info), "INFO T: d\n");
    assert_eq!(line(Level::Debug), "DEBUG T: d\n");
}

#[test]
fn length_prefix_is_big_endian() {
    assert_eq!(length_prefix(0), [0, 0, 0, 0]);
    assert_eq!(length_prefix(1), [0, 0, 0, 1]);
    assert_eq!(length_prefix(0x0102_0304), [1, 2, 3, 4]);
    assert_eq!(length_prefix(u32::MAX), [255, 255, 255, 255]);
    for len in [0u32, 7, 255, 256, 65_535, 65_536, 16_777_216, 123_456_789, u32::MAX] {
        assert_eq!(length_prefix(len), len.to_be_bytes());
        assert_eq!(prefix_length(&len.to_be_bytes()), len);
        assert_eq!(prefix_length(&length_prefix(len)), len);
    }
}

#[test]
fn frame_is_prefix_then_payload() {
    assert_eq!(frame(&vec![]), Some(vec![0, 0, 0, 0]));
    assert_eq!(frame(&vec![9, 8, 7]), Some(vec![0, 0, 0, 3, 9, 8, 7]));
    let long = vec![5u8; 300];
    let framed = frame(&long).unwrap();
    assert_eq!(&framed[..4], &[0, 0, 1, 44]);
    assert_eq!(&framed[4..], &long[..]);
}

#[test]
fn new_columns_are_empty() {
    assert_eq!(
        new_columns(&vec![Types::Bool, Types::Int, Types::Float, Types::String]),
        vec![
            Column::Bool(vec![]),
            Column::Int(vec![]),
            Column::Float(vec![]),
            Column::String(vec![]),
        ]
    );
    assert_eq!(new_columns(&vec![]), Vec::<Column>::new());
}

#[test]
fn execute_dispatches_every_query() {
    let mut db = Database::new(Machine);
    assert_eq!(
        db.execute(Query::AddTable { columns: vec![Types::Int, Types::String] }),
        Reply::Silent
    );
    assert_eq!(db.table_count(), 1);
    assert_eq!(
        db.execute(Query::Insert {
            table: 0,
            values: vec![Value::Int(0), Value::String("Hello".to_string())],
        }),
        Reply::Status(Ok(()))
    );
    assert_eq!(
        db.execute(Query::Insert {
            table: 0,
            values: vec![Value::Int(1), Value::String("Hello1".to_string())],
        }),
        Reply::Status(Ok(()))
    );
    assert_eq!(
        db.execute(Query::Insert { table: 0, values: vec![Value::Int(0), Value::Int(1)] }),
        Reply::Status(Err(QueryError::TypeMismatch))
    );
    match db.execute(Query::SelectTable { table: 0 }) {
        Reply::Table(Ok(table)) => assert_eq!(
            table.columns(),
            &vec![
                Column::Int(vec![0, 1]),
                Column::String(vec!["Hello".to_string(), "Hello1".to_string()]),
            ]
        ),
        other => panic!("unexpected reply {:?}", other),
    }
    match db.execute(Query::Select {
        table: 0,
        columns: 0,
        condition: vec![Expr::Cell, Expr::Value(Value::Int(0)), Expr::Eq],
    }) {
        Reply::Table(Ok(table)) => assert_eq!(
            table.columns(),
            &vec![Column::Int(vec![0]), Column::String(vec!["Hello".to_string()])]
        ),
        other => panic!("unexpected reply {:?}", other),
    }
    assert_eq!(
        db.execute(Query::Select { table: 0, columns: 0, condition: vec![] }),
        Reply::Table(Err(QueryError::NoOperation))
    );
    assert_eq!(
        db.execute(Query::Update {
            table: 0,
            condition_column: 0,
            targets: vec![(1, vec![Expr::Value(Value::String("X".to_string()))])],
            condition: vec![Expr::Cell, Expr::Value(Value::Int(1)), Expr::Eq],
        }),
        Reply::Status(Ok(()))
    );
    assert_eq!(
        db.execute(Query::UpdateAll {
            table: 0,
            targets: vec![(0, vec![Expr::Cell, Expr::Value(Value::Int(5)), Expr::Add])],
        }),
        Reply::Status(Ok(()))
    );
    assert_eq!(
        db.get_table(0).unwrap().columns(),
        &vec![
            Column::Int(vec![5, 6]),
            Column::String(vec!["Hello".to_string(), "X".to_string()]),
        ]
    );
    assert_eq!(
        db.execute(Query::Delete {
            table: 0,
            column: 0,
            condition: vec![Expr::Cell, Expr::Value(Value::Int(5)), Expr::Eq],
        }),
        Reply::Status(Ok(()))
    );
    assert_eq!(db.get_table(0).unwrap().row_count(), 1);
    assert_eq!(db.execute(Query::FlushLogs), Reply::Flush);
    assert_eq!(
        db.execute(Query::DropTable { id: 1 }),
        Reply::Status(Err(QueryError::TableNotFound))
    );
    assert_eq!(db.table_count(), 1);
    assert_eq!(db.execute(Query::DropTable { id: 0 }), Reply::Status(Ok(())));
    assert_eq!(db.table_count(), 0);
    assert_eq!(db.execute(Query::Exit), Reply::Exit);
}

fn subject(operation: Operation, table: usize, column: Option<usize>) -> Subject {
    Subject { operation, table, column, no_condition: false }
}

#[test]
fn queries_name_their_subject() {
    assert_eq!(
        Query::Select { table: 3, columns: 4, condition: vec![] }.subject(9),
        Some(Subject { no_condition: true, ..subject(Operation::Select, 3, Some(4)) })
    );
    assert_eq!(
        Query::SelectTable { table: 3 }.subject(9),
        Some(subject(Operation::SelectTable, 3, None))
    );
    assert_eq!(
        Query::Insert { table: 3, values: vec![] }.subject(9),
        Some(subject(Operation::Insert, 3, None))
    );
    assert_eq!(
        Query::Update { table: 3, condition_column: 5, targets: vec![], condition: vec![] }
            .subject(9),
        Some(Subject { no_condition: true, ..subject(Operation::Update, 3, Some(5)) })
    );
    assert_eq!(
        Query::UpdateAll { table: 3, targets: vec![] }.subject(9),
        Some(subject(Operation::UpdateAll, 3, None))
    );
    assert_eq!(
        Query::Delete { table: 3, column: 6, condition: vec![Expr::Cell] }.subject(9),
        Some(Subject { no_condition: true, ..subject(Operation::Delete, 3, Some(6)) })
    );
    assert_eq!(
        Query::Delete { table: 3, column: 6, condition: vec![Expr::Cell, Expr::Not] }.subject(9),
        Some(subject(Operation::Delete, 3, Some(6)))
    );
    assert_eq!(
        Query::AddTable { columns: vec![] }.subject(9),
        Some(subject(Operation::AddTable, 9, None))
    );
    assert_eq!(Query::DropTable { id: 2 }.subject(9), Some(subject(Operation::DropTable, 2, None)));
    assert_eq!(Query::Exit.subject(9), None);
    assert_eq!(Query::FlushLogs.subject(9), None);
}

#[test]
fn decimal_numerals() {
    for n in [0usize, 1, 9, 10, 11, 99, 100, 101, 1234567890, 4294967295, usize::MAX] {
        assert_eq!(decimal(n), n.to_string());
    }
    assert_eq!(decimal(0), "0");
    assert_eq!(decimal(907), "907");
}

#[test]
fn places() {
    assert_eq!(subject(Operation::Select, 12, Some(3)).place(), "table 12, column 3");
    assert_eq!(subject(Operation::Insert, 0, None).place(), "table 0");
    assert_eq!(subject(Operation::Select, 12, Some(3)).target(), "table 12 with column 3");
    assert_eq!(subject(Operation::Insert, 0, None).target(), "table 0");
}

#[test]
fn failure_kinds() {
    let select = subject(Operation::Select, 0, Some(4));
    let insert = subject(Operation::Insert, 0, None);
    let unconditioned = Subject { no_condition: true, ..select };
    assert_eq!(select.failure_kind(QueryError::TableNotFound), FailureKind::NoTable);
    assert_eq!(select.failure_kind(QueryError::ColumnNotFound), FailureKind::NoColumn(4));
    assert_eq!(insert.failure_kind(QueryError::ColumnNotFound), FailureKind::Evaluation);
    assert_eq!(insert.failure_kind(QueryError::SizeMismatch), FailureKind::InsertSize);
    assert_eq!(insert.failure_kind(QueryError::TypeMismatch), FailureKind::InsertTypes);
    assert_eq!(select.failure_kind(QueryError::SizeMismatch), FailureKind::Evaluation);
    assert_eq!(select.failure_kind(QueryError::TypeMismatch), FailureKind::Evaluation);
    assert_eq!(select.failure_kind(QueryError::NoOperation), FailureKind::Evaluation);
    assert_eq!(unconditioned.failure_kind(QueryError::NoOperation), FailureKind::NoCondition);
    assert_eq!(unconditioned.failure_kind(QueryError::TableNotFound), FailureKind::NoTable);
    assert_eq!(select.failure_kind(QueryError::StackUnderflow), FailureKind::Evaluation);
}

#[test]
fn records_of_failures() {
    let select = subject(Operation::Select, 0, Some(4));
    let record = select.failed(QueryError::ColumnNotFound);
    assert_eq!(record.level, Level::Error);
    assert_eq!(record.title, "Column Not Found");
    assert_eq!(record.description, "column 4 not found in table 0");
    assert_eq!(select.failed(QueryError::TableNotFound).description, "table 0 not found");
    assert_eq!(
        select.failed(QueryError::TypeMismatch).description,
        "select on table 0, column 4: type mismatch"
    );
    assert_eq!(
        select.failed(QueryError::StackUnderflow).description,
        "select on table 0, column 4: stack underflow"
    );
    assert_eq!(
        select.failed(QueryError::NoOperation).description,
        "select on table 0, column 4: no operation"
    );
    assert_eq!(
        Subject { no_condition: true, ..select }.failed(QueryError::NoOperation).description,
        "select on table 0: no condition given"
    );
    let insert = subject(Operation::Insert, 7, None);
    assert_eq!(
        insert.failed(QueryError::SizeMismatch).line(),
        "ERROR! Size Mismatch: insertion on table 7: given value size is not the same as column size\n"
    );
    assert_eq!(
        insert.failed(QueryError::TypeMismatch).description,
        "insertion on table 7: given value types are not the same as column types"
    );
    let record = subject(Operation::UpdateAll, 1, None).failed(QueryError::TypeMismatch);
    assert_eq!(record.description, "update_all on table 1: type mismatch");
    assert_eq!(
        subject(Operation::Delete, 1, Some(2)).failed(QueryError::OperatorMismatch).description,
        "delete on table 1, column 2: operator mismatch"
    );
}

#[test]
fn error_phrases() {
    let expected = vec![
        "type mismatch",
        "operator mismatch",
        "no operation",
        "cell value not set",
        "table not found",
        "size mismatch",
        "stack underflow",
        "column not found",
        "invalid query",
    ];
    let got: Vec<String> = every_error().iter().map(|e| e.phrase()).collect();
    assert_eq!(got, expected);
}

#[test]
fn records_of_successes() {
    let text = |operation: Operation, column: Option<usize>, rows: usize| {
        let record = subject(operation, 2, column).succeeded(rows);
        assert_eq!(record.level, Level::Info);
        assert_eq!(record.title, operation.title());
        record.description
    };
    assert_eq!(
        text(Operation::Select, Some(1), 15),
        "Select query executed on table 2 with column 1 and 15 rows returned"
    );
    assert_eq!(
        text(Operation::SelectTable, None, 0),
        "Select Table query executed on table 2 and 0 rows returned"
    );
    assert_eq!(text(Operation::Insert, None, 0), "Insert query executed on table 2 ");
    assert_eq!(text(Operation::Update, Some(0), 0), "Update query executed on table 2 with column 0");
    assert_eq!(text(Operation::UpdateAll, None, 0), "Update All query executed on table 2");
    assert_eq!(text(Operation::Delete, Some(3), 0), "Delete query executed on table 2 with column 3");
    assert_eq!(text(Operation::AddTable, None, 0), "added table 2 to database");
    assert_eq!(text(Operation::DropTable, None, 0), "dropped table 2 from database");
}

#[test]
fn replies_leave_one_record() {
    let mut db = Database::new(Machine);
    let add = Query::AddTable { columns: vec![Types::Int] };
    let about = add.subject(db.table_count()).unwrap();
    let reply = db.execute(add);
    assert_eq!(reply.record(&about).line(), "INFO Table Added: added table 0 to database\n");
    for n in 0..12 {
        assert_eq!(db.insert(0, vec![Value::Int(n)]), Ok(()));
    }
    let select = Query::Select {
        table: 0,
        columns: 0,
        condition: vec![Expr::Cell, Expr::Value(Value::Int(1)), Expr::Gt],
    };
    let about = select.subject(db.table_count()).unwrap();
    let reply = db.execute(select);
    assert_eq!(
        reply.record(&about).line(),
        "INFO Select: Select query executed on table 0 with column 0 and 10 rows returned\n"
    );
    let select = Query::Select { table: 0, columns: 0, condition: vec![] };
    let about = select.subject(db.table_count()).unwrap();
    let reply = db.execute(select);
    assert_eq!(
        reply.record(&about).line(),
        "ERROR! No Operation: select on table 0: no condition given\n"
    );
    let insert = Query::Insert { table: 4, values: vec![] };
    let about = insert.subject(db.table_count()).unwrap();
    let reply = db.execute(insert);
    assert_eq!(
        reply.record(&about).line(),
        "ERROR! Table Not Found: table 4 not found\n"
    );
}

#[test]
fn replies_carry_their_failure() {
    assert_eq!(Reply::Status(Ok(())).failure(), None);
    assert_eq!(
        Reply::Status(Err(QueryError::SizeMismatch)).failure(),
        Some(QueryError::SizeMismatch)
    );
    assert_eq!(
        Reply::Table(Err(QueryError::TableNotFound)).failure(),
        Some(QueryError::TableNotFound)
    );
    assert_eq!(Reply::Silent.failure(), None);
    assert_eq!(Reply::Flush.failure(), None);
    assert_eq!(Reply::Exit.failure(), None);
}
