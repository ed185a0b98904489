use minase::expr::{
    float_bits_eq, float_bits_le, float_bits_lt, Arithmetic, Expr, ExprEvaluator, FloatArithmetic,
    FloatFact, RecordedFloats,
};
use minase::query_error::QueryError;
use minase::values::{ToTypes, Types, Value};

struct Machine;

impl FloatArithmetic for Machine {
    fn spec_arith(&self, op: Arithmetic, a: u32, b: u32) -> u32 {
        self.arith(op, a, b)
    }

    fn arith(&self, op: Arithmetic, a: u32, b: u32) -> u32 {
        let (x, y) = (f32::from_bits(a), f32::from_bits(b));
        bits_of(match op {
            Arithmetic::Add => x + y,
            Arithmetic::Sub => x - y,
            Arithmetic::Mul => x * y,
            Arithmetic::Div => x / y,
        })
    }
}

/// The bits of a number; one and the same pattern for every result that is
/// not a number, so that equal operands always give equal bits.
fn bits_of(x: f32) -> u32 {
    if x.is_nan() {
        f32::NAN.to_bits()
    } else {
        x.to_bits()
    }
}

fn num(i: i32) -> Expr {
    Expr::Value(Value::Int(i))
}

fn float(x: f32) -> Expr {
    Expr::Value(Value::Float(x.to_bits()))
}

fn text(s: &str) -> Expr {
    Expr::Value(Value::String(s.to_string()))
}

fn truth(b: bool) -> Expr {
    Expr::Value(Value::Bool(b))
}

fn eval(query: Vec<Expr>) -> Result<Value, QueryError> {
    ExprEvaluator::evaluate(query, Value::Int(0), &Machine)
}

#[test]
fn integer_arithmetic() {
    assert_eq!(eval(vec![num(2), num(3), Expr::Add]), Ok(Value::Int(5)));
    assert_eq!(eval(vec![num(2), num(3), Expr::Sub]), Ok(Value::Int(-1)));
    assert_eq!(eval(vec![num(4), num(3), Expr::Mul]), Ok(Value::Int(12)));
    assert_eq!(eval(vec![num(7), num(2), Expr::Div]), Ok(Value::Int(3)));
    assert_eq!(eval(vec![num(-7), num(2), Expr::Div]), Ok(Value::Int(-3)));
    assert_eq!(eval(vec![num(7), num(-2), Expr::Div]), Ok(Value::Int(-3)));
}

#[test]
fn integer_arithmetic_wraps() {
    assert_eq!(eval(vec![num(i32::MAX), num(1), Expr::Add]), Ok(Value::Int(i32::MIN)));
    assert_eq!(eval(vec![num(i32::MIN), num(1), Expr::Sub]), Ok(Value::Int(i32::MAX)));
    assert_eq!(eval(vec![num(i32::MAX), num(2), Expr::Mul]), Ok(Value::Int(-2)));
}

#[test]
fn integer_division_without_quotient() {
    assert_eq!(eval(vec![num(1), num(0), Expr::Div]), Err(QueryError::OperatorMismatch));
    assert_eq!(eval(vec![num(i32::MIN), num(-1), Expr::Div]), Err(QueryError::OperatorMismatch));
}

#[test]
fn integer_comparisons() {
    assert_eq!(eval(vec![num(2), num(3), Expr::Gt]), Ok(Value::Bool(false)));
    assert_eq!(eval(vec![num(2), num(3), Expr::Lt]), Ok(Value::Bool(true)));
    assert_eq!(eval(vec![num(3), num(3), Expr::GtEq]), Ok(Value::Bool(true)));
    assert_eq!(eval(vec![num(4), num(3), Expr::LtEq]), Ok(Value::Bool(false)));
    assert_eq!(eval(vec![num(3), num(3), Expr::Eq]), Ok(Value::Bool(true)));
    assert_eq!(eval(vec![num(3), num(3), Expr::Neq]), Ok(Value::Bool(false)));
}

#[test]
fn operands_keep_their_order() {
    assert_eq!(eval(vec![num(10), num(4), Expr::Sub]), Ok(Value::Int(6)));
    assert_eq!(eval(vec![text("ab"), text("cd"), Expr::Add]), Ok(Value::String("abcd".to_string())));
    assert_eq!(eval(vec![num(5), num(1), Expr::Gt]), Ok(Value::Bool(true)));
}

#[test]
fn string_operators() {
    assert_eq!(eval(vec![text("a"), text("a"), Expr::Eq]), Ok(Value::Bool(true)));
    assert_eq!(eval(vec![text("a"), text("b"), Expr::Eq]), Ok(Value::Bool(false)));
    assert_eq!(eval(vec![text("a"), text("b"), Expr::Neq]), Ok(Value::Bool(true)));
    assert_eq!(eval(vec![text("a"), text("b"), Expr::Sub]), Err(QueryError::TypeMismatch));
    assert_eq!(eval(vec![text("a"), text("b"), Expr::Lt]), Err(QueryError::TypeMismatch));
    assert_eq!(eval(vec![text("a"), text("b"), Expr::And]), Err(QueryError::TypeMismatch));
}

#[test]
fn boolean_operators() {
    assert_eq!(eval(vec![truth(true), truth(false), Expr::And]), Ok(Value::Bool(false)));
    assert_eq!(eval(vec![truth(true), truth(true), Expr::And]), Ok(Value::Bool(true)));
    assert_eq!(eval(vec![truth(true), truth(false), Expr::Or]), Ok(Value::Bool(true)));
    assert_eq!(eval(vec![truth(false), truth(false), Expr::Or]), Ok(Value::Bool(false)));
    assert_eq!(eval(vec![truth(false), Expr::Not]), Ok(Value::Bool(true)));
    assert_eq!(eval(vec![truth(true), truth(true), Expr::Eq]), Ok(Value::Bool(true)));
    assert_eq!(eval(vec![truth(true), truth(true), Expr::Neq]), Ok(Value::Bool(false)));
    assert_eq!(eval(vec![truth(true), truth(true), Expr::Add]), Err(QueryError::TypeMismatch));
    assert_eq!(eval(vec![truth(true), truth(true), Expr::Gt]), Err(QueryError::TypeMismatch));
}

#[test]
fn boolean_operators_check_both_operands() {
    assert_eq!(eval(vec![truth(false), num(1), Expr::And]), Err(QueryError::TypeMismatch));
    assert_eq!(eval(vec![truth(true), num(1), Expr::Or]), Err(QueryError::TypeMismatch));
    assert_eq!(eval(vec![num(1), num(1), Expr::And]), Err(QueryError::TypeMismatch));
    assert_eq!(eval(vec![num(1), Expr::Not]), Err(QueryError::TypeMismatch));
}

#[test]
fn nested_expression() {
    // (cell + 1) * 2 > 5 and not (cell == 0)
    let query = vec![
        Expr::Cell,
        num(1),
        Expr::Add,
        num(2),
        Expr::Mul,
        num(5),
        Expr::Gt,
        Expr::Cell,
        num(0),
        Expr::Eq,
        Expr::Not,
        Expr::And,
    ];
    assert_eq!(ExprEvaluator::evaluate(query.clone(), Value::Int(2), &Machine), Ok(Value::Bool(true)));
    assert_eq!(ExprEvaluator::evaluate(query.clone(), Value::Int(1), &Machine), Ok(Value::Bool(false)));
    assert_eq!(ExprEvaluator::evaluate(query, Value::Int(0), &Machine), Ok(Value::Bool(false)));
}

#[test]
fn cell_is_bound_to_the_given_value() {
    let query = vec![Expr::Cell, text("!"), Expr::Add];
    assert_eq!(
        ExprEvaluator::evaluate(query, Value::String("hey".to_string()), &Machine),
        Ok(Value::String("hey!".to_string()))
    );
}

#[test]
fn mismatched_operands_under_every_operator() {
    let operators = vec![
        Expr::Add,
        Expr::Sub,
        Expr::Mul,
        Expr::Div,
        Expr::Gt,
        Expr::Lt,
        Expr::GtEq,
        Expr::LtEq,
        Expr::Eq,
        Expr::Neq,
        Expr::And,
        Expr::Or,
    ];
    for op in operators {
        assert_eq!(eval(vec![num(1), text("1"), op.clone()]), Err(QueryError::TypeMismatch));
        assert_eq!(eval(vec![float(1.0), num(1), op.clone()]), Err(QueryError::TypeMismatch));
        assert_eq!(eval(vec![truth(true), text("true"), op]), Err(QueryError::TypeMismatch));
    }
}

#[test]
fn operator_without_operands_underflows() {
    assert_eq!(eval(vec![num(1), Expr::Add]), Err(QueryError::StackUnderflow));
    assert_eq!(eval(vec![Expr::Not]), Err(QueryError::StackUnderflow));
    assert_eq!(eval(vec![Expr::Eq, num(1), num(2)]), Err(QueryError::StackUnderflow));
}

#[test]
fn empty_query_is_no_operation() {
    assert_eq!(eval(vec![]), Err(QueryError::NoOperation));
}

#[test]
fn bare_leaf_is_no_operation_at_top_level() {
    assert_eq!(eval(vec![num(7)]), Err(QueryError::NoOperation));
    assert_eq!(eval(vec![Expr::Cell]), Err(QueryError::NoOperation));
}

#[test]
fn leftover_operands_are_no_operation() {
    assert_eq!(eval(vec![num(1), num(2)]), Err(QueryError::NoOperation));
    assert_eq!(eval(vec![num(1), num(2), Expr::Eq, num(3)]), Err(QueryError::NoOperation));
}

#[test]
fn compute_accepts_a_bare_leaf() {
    assert_eq!(ExprEvaluator::compute(&vec![num(7)], &Value::Int(0), &Machine), Ok(Value::Int(7)));
    assert_eq!(ExprEvaluator::compute(&vec![Expr::Cell], &Value::Int(9), &Machine), Ok(Value::Int(9)));
    assert_eq!(ExprEvaluator::compute(&vec![], &Value::Int(9), &Machine), Err(QueryError::NoOperation));
}

#[test]
fn trivial_queries() {
    assert!(ExprEvaluator::trivial(&vec![]));
    assert!(ExprEvaluator::trivial(&vec![Expr::Cell]));
    assert!(ExprEvaluator::trivial(&vec![num(1)]));
    assert!(!ExprEvaluator::trivial(&vec![Expr::Not]));
    assert!(!ExprEvaluator::trivial(&vec![num(1), num(2)]));
}

#[test]
fn apply_is_exact() {
    assert_eq!(
        ExprEvaluator::apply(&Expr::Sub, Value::Int(9), Value::Int(4), &Machine),
        Ok(Value::Int(5))
    );
    assert_eq!(
        ExprEvaluator::apply(&Expr::Cell, Value::Int(9), Value::Int(4), &Machine),
        Err(QueryError::TypeMismatch)
    );
}

fn samples() -> Vec<f32> {
    vec![
        0.0,
        -0.0,
        1.0,
        -1.0,
        1.5,
        -1.5,
        f32::MIN_POSITIVE,
        -f32::MIN_POSITIVE,
        1.0e-45,
        -1.0e-45,
        f32::MAX,
        f32::MIN,
        f32::INFINITY,
        f32::NEG_INFINITY,
        f32::NAN,
        -f32::NAN,
        3.25,
        1.0e10,
        -2.5e-3,
    ]
}

#[test]
fn float_comparisons_agree_with_the_machine() {
    for a in samples() {
        for b in samples() {
            assert_eq!(float_bits_lt(a.to_bits(), b.to_bits()), a < b, "{} < {}", a, b);
            assert_eq!(float_bits_le(a.to_bits(), b.to_bits()), a <= b, "{} <= {}", a, b);
            assert_eq!(float_bits_eq(a.to_bits(), b.to_bits()), a == b, "{} == {}", a, b);
        }
    }
}

#[test]
fn float_operators_agree_with_the_machine() {
    for a in samples() {
        for b in samples() {
            assert_eq!(eval(vec![float(a), float(b), Expr::Gt]), Ok(Value::Bool(a > b)));
            assert_eq!(eval(vec![float(a), float(b), Expr::Lt]), Ok(Value::Bool(a < b)));
            assert_eq!(eval(vec![float(a), float(b), Expr::GtEq]), Ok(Value::Bool(a >= b)));
            assert_eq!(eval(vec![float(a), float(b), Expr::LtEq]), Ok(Value::Bool(a <= b)));
            assert_eq!(eval(vec![float(a), float(b), Expr::Eq]), Ok(Value::Bool(a == b)));
            assert_eq!(eval(vec![float(a), float(b), Expr::Neq]), Ok(Value::Bool(a != b)));
        }
    }
}

#[test]
fn float_arithmetic_is_the_units() {
    assert_eq!(eval(vec![float(1.0), float(2.0), Expr::Add]), Ok(Value::Float(3.0f32.to_bits())));
    assert_eq!(eval(vec![float(1.0), float(2.5), Expr::Sub]), Ok(Value::Float((-1.5f32).to_bits())));
    assert_eq!(eval(vec![float(1.5), float(4.0), Expr::Mul]), Ok(Value::Float(6.0f32.to_bits())));
    assert_eq!(eval(vec![float(1.0), float(4.0), Expr::Div]), Ok(Value::Float(0.25f32.to_bits())));
    assert_eq!(
        eval(vec![float(1.0), float(0.0), Expr::Div]),
        Ok(Value::Float(f32::INFINITY.to_bits()))
    );
    for a in samples() {
        for b in samples() {
            assert_eq!(
                eval(vec![float(a), float(b), Expr::Add]),
                Ok(Value::Float(bits_of(a + b)))
            );
            assert_eq!(
                eval(vec![float(a), float(b), Expr::Sub]),
                Ok(Value::Float(bits_of(a - b)))
            );
            assert_eq!(
                eval(vec![float(a), float(b), Expr::Mul]),
                Ok(Value::Float(bits_of(a * b)))
            );
            assert_eq!(
                eval(vec![float(a), float(b), Expr::Div]),
                Ok(Value::Float(bits_of(a / b)))
            );
        }
    }
    assert_eq!(
        eval(vec![float(0.0), float(0.0), Expr::Div]),
        Ok(Value::Float(f32::NAN.to_bits()))
    );
    assert_eq!(eval(vec![float(1.0), float(2.0), Expr::And]), Err(QueryError::TypeMismatch));
}

#[test]
fn float_arithmetic_feeds_comparisons() {
    // cell * 2 + 0.5 > 3
    let query = vec![
        Expr::Cell,
        float(2.0),
        Expr::Mul,
        float(0.5),
        Expr::Add,
        float(3.0),
        Expr::Gt,
    ];
    let at = |x: f32| ExprEvaluator::evaluate(query.clone(), Value::Float(x.to_bits()), &Machine);
    assert_eq!(at(1.0), Ok(Value::Bool(false)));
    assert_eq!(at(1.25), Ok(Value::Bool(false)));
    assert_eq!(at(1.5), Ok(Value::Bool(true)));
}

#[test]
fn operands_reach_the_unit_in_order() {
    let unit = RecordedFloats {
        facts: vec![
            FloatFact { op: Arithmetic::Sub, left: 7, right: 9, result: 100 },
            FloatFact { op: Arithmetic::Sub, left: 9, right: 7, result: 200 },
            FloatFact { op: Arithmetic::Add, left: 9, right: 7, result: 300 },
            FloatFact { op: Arithmetic::Sub, left: 9, right: 7, result: 400 },
        ],
        otherwise: 5,
    };
    let run = |op: Expr, a: u32, b: u32| {
        ExprEvaluator::evaluate(
            vec![Expr::Value(Value::Float(a)), Expr::Value(Value::Float(b)), op],
            Value::Int(0),
            &unit,
        )
    };
    assert_eq!(run(Expr::Sub, 9, 7), Ok(Value::Float(200)));
    assert_eq!(run(Expr::Sub, 7, 9), Ok(Value::Float(100)));
    assert_eq!(run(Expr::Add, 9, 7), Ok(Value::Float(300)));
    assert_eq!(run(Expr::Add, 7, 9), Ok(Value::Float(5)));
    assert_eq!(run(Expr::Mul, 9, 7), Ok(Value::Float(5)));
    assert_eq!(run(Expr::Div, 9, 7), Ok(Value::Float(5)));
    assert_eq!(unit.arith(Arithmetic::Sub, 9, 7), 200);
    assert_eq!(RecordedFloats { facts: vec![], otherwise: 8 }.arith(Arithmetic::Mul, 1, 2), 8);
}

#[test]
fn values_know_their_type() {
    assert_eq!(Value::Int(1).to_types(), Types::Int);
    assert_eq!(Value::Float(1.0f32.to_bits()).to_types(), Types::Float);
    assert_eq!(Value::String("s".to_string()).to_types(), Types::String);
    assert_eq!(Value::Bool(true).to_types(), Types::Bool);
}

#[test]
fn values_unwrap_to_their_own_type_only() {
    assert_eq!(Value::Int(4).into_int(), Some(4));
    assert_eq!(Value::Bool(true).into_int(), None);
    assert_eq!(Value::Float(2.5f32.to_bits()).into_float().map(f32::from_bits), Some(2.5));
    assert_eq!(Value::Int(4).into_float(), None);
    assert_eq!(Value::String("s".to_string()).into_string(), Some("s".to_string()));
    assert_eq!(Value::Int(4).into_string(), None);
    assert_eq!(Value::Bool(false).into_bool(), Some(false));
    assert_eq!(Value::String("true".to_string()).into_bool(), None);
}

#[test]
fn clones_are_equal() {
    let v = Value::String("copy".to_string());
    assert_eq!(v.clone(), v);
    let e = Expr::Value(Value::Int(3));
    assert_eq!(e.clone(), e);
    assert_eq!(Expr::And.clone(), Expr::And);
}
