//! Expressions in postfix order and their evaluation on a stack.
//!
//! A program is a sequence of nodes: leaves push a value, operators take
//! their operands from the top of the stack and push their result. The tree
//! `Eq(Cell, Value(v))` is written `[Cell, Value(v), Eq]`.
//!
//! Integer `Add`, `Sub` and `Mul` wrap around. Integer `Div` truncates toward
//! zero; where the quotient does not exist (a zero divisor, or the least
//! integer divided by minus one) it reports `OperatorMismatch`.
//!
//! A float is carried as the bits of a binary32 number. Floats are compared
//! here, on their bits, as IEEE-754 orders them. Their sums, differences,
//! products and quotients are asked of a `FloatArithmetic` that the caller
//! supplies; the evaluator is verified for whatever it answers.

use vstd::prelude::*;
use crate::query_error::QueryError;
use crate::values::{Value, ValueView};

verus! {

/// One node of an expression.
#[derive(Debug, PartialEq)]
pub enum Expr {
    Value(Value),
    Cell,
    Add,
    Sub,
    Mul,
    Div,
    Gt,
    Lt,
    GtEq,
    LtEq,
    Eq,
    Neq,
    Not,
    And,
    Or,
}

/// What an `Expr` stands for.
pub ghost enum ExprView {
    Value(ValueView),
    Cell,
    Add,
    Sub,
    Mul,
    Div,
    Gt,
    Lt,
    GtEq,
    LtEq,
    Eq,
    Neq,
    Not,
    And,
    Or,
}

impl View for Expr {
    type V = ExprView;

    open spec fn view(&self) -> ExprView {
        match self {
            Expr::Value(v) => ExprView::Value(v@),
            Expr::Cell => ExprView::Cell,
            Expr::Add => ExprView::Add,
            Expr::Sub => ExprView::Sub,
            Expr::Mul => ExprView::Mul,
            Expr::Div => ExprView::Div,
            Expr::Gt => ExprView::Gt,
            Expr::Lt => ExprView::Lt,
            Expr::GtEq => ExprView::GtEq,
            Expr::LtEq => ExprView::LtEq,
            Expr::Eq => ExprView::Eq,
            Expr::Neq => ExprView::Neq,
            Expr::Not => ExprView::Not,
            Expr::And => ExprView::And,
            Expr::Or => ExprView::Or,
        }
    }
}

impl Clone for Expr {
    fn clone(&self) -> (copy: Expr)
        ensures
            copy@ == self@,
    {
        match self {
            Expr::Value(v) => Expr::Value(v.clone()),
            Expr::Cell => Expr::Cell,
            Expr::Add => Expr::Add,
            Expr::Sub => Expr::Sub,
            Expr::Mul => Expr::Mul,
            Expr::Div => Expr::Div,
            Expr::Gt => Expr::Gt,
            Expr::Lt => Expr::Lt,
            Expr::GtEq => Expr::GtEq,
            Expr::LtEq => Expr::LtEq,
            Expr::Eq => Expr::Eq,
            Expr::Neq => Expr::Neq,
            Expr::Not => Expr::Not,
            Expr::And => Expr::And,
            Expr::Or => Expr::Or,
        }
    }
}

impl ExprView {
    /// A leaf pushes a value and takes none.
    pub open spec fn is_leaf(self) -> bool {
        self is Value || self is Cell
    }
}

/// A program as contracts speak of it.
pub open spec fn program_view(program: Seq<Expr>) -> Seq<ExprView> {
    Seq::new(program.len(), |i: int| program[i]@)
}

/// A stack of values as contracts speak of it, bottom first.
pub open spec fn stack_view(stack: Seq<Value>) -> Seq<ValueView> {
    Seq::new(stack.len(), |i: int| stack[i]@)
}

/// An outcome of evaluation as contracts speak of it.
pub open spec fn outcome_view(out: Result<Value, QueryError>) -> Result<ValueView, QueryError> {
    match out {
        Ok(v) => Ok(v@),
        Err(e) => Err(e),
    }
}

/// The bits stand for no number.
pub open spec fn float_is_nan(bits: u32) -> bool {
    (bits & 0x7f80_0000u32) == 0x7f80_0000u32 && (bits & 0x007f_ffffu32) != 0u32
}

/// An integer that orders the numbers as their values do: the magnitude bits,
/// negated where the sign bit is set. Both zeros have rank 0.
pub open spec fn float_rank(bits: u32) -> int {
    if (bits & 0x8000_0000u32) != 0u32 {
        -((bits & 0x7fff_ffffu32) as int)
    } else {
        (bits & 0x7fff_ffffu32) as int
    }
}

/// `a < b` on two binary32 numbers given by their bits.
pub open spec fn float_lt(a: u32, b: u32) -> bool {
    !float_is_nan(a) && !float_is_nan(b) && float_rank(a) < float_rank(b)
}

/// `a <= b` on two binary32 numbers given by their bits.
pub open spec fn float_le(a: u32, b: u32) -> bool {
    !float_is_nan(a) && !float_is_nan(b) && float_rank(a) <= float_rank(b)
}

/// `a == b` on two binary32 numbers given by their bits.
pub open spec fn float_eq(a: u32, b: u32) -> bool {
    !float_is_nan(a) && !float_is_nan(b) && float_rank(a) == float_rank(b)
}

/// The four operators of arithmetic.
#[derive(Clone, Copy, Debug, PartialEq, Eq, Structural)]
pub enum Arithmetic {
    Add,
    Sub,
    Mul,
    Div,
}

/// The arithmetic of binary32 numbers, on their bits. The library holds no
/// float: whoever evaluates expressions supplies the arithmetic, and the
/// contracts name its results by `spec_arith`. An implementation gives equal
/// bits for equal operands; one on the machine's floats gives one pattern
/// for every result that is not a number.
pub trait FloatArithmetic {
    /// The bits of the result of `op` on the numbers with the bits `a` and
    /// `b`, in that order.
    spec fn spec_arith(&self, op: Arithmetic, a: u32, b: u32) -> u32;

    /// The bits of the result of `op` on the numbers with the bits `a` and
    /// `b`, in that order.
    fn arith(&self, op: Arithmetic, a: u32, b: u32) -> (bits: u32)
        ensures
            bits == self.spec_arith(op, a, b),
    ;
}

/// A float arithmetic as the contracts of the evaluator speak of it.
pub open spec fn arith_of<A: FloatArithmetic>(unit: &A) -> spec_fn(Arithmetic, u32, u32) -> u32 {
    |op: Arithmetic, a: u32, b: u32| unit.spec_arith(op, a, b)
}

/// One recorded result: `op` on `left` and `right` gives `result`.
#[derive(Clone, Copy, Debug, PartialEq, Eq)]
pub struct FloatFact {
    pub op: Arithmetic,
    pub left: u32,
    pub right: u32,
    pub result: u32,
}

/// The result that the facts from place `at` on record for `op` on `a` and
/// `b`: that of the first fact with this operator and these operands, and
/// `otherwise` where there is none.
pub open spec fn recorded_from(
    facts: Seq<FloatFact>,
    at: int,
    otherwise: u32,
    op: Arithmetic,
    a: u32,
    b: u32,
) -> u32
    decreases facts.len() - at,
{
    if at < 0 || at >= facts.len() {
        otherwise
    } else if facts[at].op == op && facts[at].left == a && facts[at].right == b {
        facts[at].result
    } else {
        recorded_from(facts, at + 1, otherwise, op, a, b)
    }
}

/// A float arithmetic by table: results recorded beforehand, and one result
/// for every operation that is not recorded.
#[derive(Debug, PartialEq, Eq)]
pub struct RecordedFloats {
    pub facts: Vec<FloatFact>,
    /// The bits given where no fact matches.
    pub otherwise: u32,
}

impl FloatArithmetic for RecordedFloats {
    open spec fn spec_arith(&self, op: Arithmetic, a: u32, b: u32) -> u32 {
        recorded_from(self.facts@, 0, self.otherwise, op, a, b)
    }

    fn arith(&self, op: Arithmetic, a: u32, b: u32) -> (bits: u32) {
        let mut i: usize = 0;
        while i < self.facts.len()
            invariant
                i <= self.facts.len(),
                recorded_from(self.facts@, i as int, self.otherwise, op, a, b) == recorded_from(
                    self.facts@,
                    0,
                    self.otherwise,
                    op,
                    a,
                    b,
                ),
            decreases self.facts.len() - i,
        {
            let fact = self.facts[i];
            if fact.op == op && fact.left == a && fact.right == b {
                return fact.result;
            }
            i = i + 1;
        }
        self.otherwise
    }
}

/// What a binary operator makes of two integers.
pub open spec fn apply_int(op: ExprView, a: i32, b: i32) -> Result<ValueView, QueryError> {
    match op {
        ExprView::Add => Ok(ValueView::Int(a.wrapping_add(b))),
        ExprView::Sub => Ok(ValueView::Int(a.wrapping_sub(b))),
        ExprView::Mul => Ok(ValueView::Int(a.wrapping_mul(b))),
        ExprView::Div => match a.checked_div(b) {
            Some(q) => Ok(ValueView::Int(q)),
            None => Err(QueryError::OperatorMismatch),
        },
        ExprView::Gt => Ok(ValueView::Bool(a > b)),
        ExprView::Lt => Ok(ValueView::Bool(a < b)),
        ExprView::GtEq => Ok(ValueView::Bool(a >= b)),
        ExprView::LtEq => Ok(ValueView::Bool(a <= b)),
        ExprView::Eq => Ok(ValueView::Bool(a == b)),
        ExprView::Neq => Ok(ValueView::Bool(a != b)),
        _ => Err(QueryError::TypeMismatch),
    }
}

/// What a binary operator makes of two floats, given by their bits: the
/// arithmetic operators give the float that `arith` names, the comparisons a
/// truth value.
pub open spec fn apply_float(
    op: ExprView,
    a: u32,
    b: u32,
    arith: spec_fn(Arithmetic, u32, u32) -> u32,
) -> Result<ValueView, QueryError> {
    match op {
        ExprView::Add => Ok(ValueView::Float(arith(Arithmetic::Add, a, b))),
        ExprView::Sub => Ok(ValueView::Float(arith(Arithmetic::Sub, a, b))),
        ExprView::Mul => Ok(ValueView::Float(arith(Arithmetic::Mul, a, b))),
        ExprView::Div => Ok(ValueView::Float(arith(Arithmetic::Div, a, b))),
        ExprView::Gt => Ok(ValueView::Bool(float_lt(b, a))),
        ExprView::Lt => Ok(ValueView::Bool(float_lt(a, b))),
        ExprView::GtEq => Ok(ValueView::Bool(float_le(b, a))),
        ExprView::LtEq => Ok(ValueView::Bool(float_le(a, b))),
        ExprView::Eq => Ok(ValueView::Bool(float_eq(a, b))),
        ExprView::Neq => Ok(ValueView::Bool(!float_eq(a, b))),
        _ => Err(QueryError::TypeMismatch),
    }
}

/// What a binary operator makes of two strings.
pub open spec fn apply_string(op: ExprView, a: Seq<char>, b: Seq<char>) -> Result<
    ValueView,
    QueryError,
> {
    match op {
        ExprView::Add => Ok(ValueView::Str(a + b)),
        ExprView::Eq => Ok(ValueView::Bool(a == b)),
        ExprView::Neq => Ok(ValueView::Bool(a != b)),
        _ => Err(QueryError::TypeMismatch),
    }
}

/// What a binary operator makes of two truth values.
pub open spec fn apply_bool(op: ExprView, a: bool, b: bool) -> Result<ValueView, QueryError> {
    match op {
        ExprView::And => Ok(ValueView::Bool(a && b)),
        ExprView::Or => Ok(ValueView::Bool(a || b)),
        ExprView::Eq => Ok(ValueView::Bool(a == b)),
        ExprView::Neq => Ok(ValueView::Bool(a != b)),
        _ => Err(QueryError::TypeMismatch),
    }
}

/// What a binary operator makes of its left and right operand. Operands of
/// two different types are a `TypeMismatch` under every operator.
pub open spec fn apply_binary(
    op: ExprView,
    left: ValueView,
    right: ValueView,
    arith: spec_fn(Arithmetic, u32, u32) -> u32,
) -> Result<ValueView, QueryError> {
    match (left, right) {
        (ValueView::Int(a), ValueView::Int(b)) => apply_int(op, a, b),
        (ValueView::Float(a), ValueView::Float(b)) => apply_float(op, a, b, arith),
        (ValueView::Str(a), ValueView::Str(b)) => apply_string(op, a, b),
        (ValueView::Bool(a), ValueView::Bool(b)) => apply_bool(op, a, b),
        _ => Err(QueryError::TypeMismatch),
    }
}

/// The stack after one node, with `cell` bound to the cell leaf.
pub open spec fn eval_step(
    stack: Seq<ValueView>,
    node: ExprView,
    cell: ValueView,
    arith: spec_fn(Arithmetic, u32, u32) -> u32,
) -> Result<Seq<ValueView>, QueryError> {
    match node {
        ExprView::Value(v) => Ok(stack.push(v)),
        ExprView::Cell => Ok(stack.push(cell)),
        ExprView::Not => if stack.len() < 1 {
            Err(QueryError::StackUnderflow)
        } else {
            match stack.last() {
                ValueView::Bool(b) => Ok(stack.drop_last().push(ValueView::Bool(!b))),
                _ => Err(QueryError::TypeMismatch),
            }
        },
        _ => if stack.len() < 2 {
            Err(QueryError::StackUnderflow)
        } else {
            match apply_binary(node, stack[stack.len() - 2], stack[stack.len() - 1], arith) {
                Ok(v) => Ok(stack.drop_last().drop_last().push(v)),
                Err(e) => Err(e),
            }
        },
    }
}

/// The stack after the nodes of `program` from place `at` on, started on
/// `stack`; the first node that fails ends the run with its error.
pub open spec fn eval_from(
    program: Seq<ExprView>,
    cell: ValueView,
    at: int,
    stack: Seq<ValueView>,
    arith: spec_fn(Arithmetic, u32, u32) -> u32,
) -> Result<Seq<ValueView>, QueryError>
    decreases program.len() - at,
{
    if at < 0 || at >= program.len() {
        Ok(stack)
    } else {
        match eval_step(stack, program[at], cell, arith) {
            Ok(next) => eval_from(program, cell, at + 1, next, arith),
            Err(e) => Err(e),
        }
    }
}

/// The value of `program` with `cell` bound to the cell leaf: what is left on
/// the stack, if that is exactly one value.
pub open spec fn spec_compute(
    program: Seq<ExprView>,
    cell: ValueView,
    arith: spec_fn(Arithmetic, u32, u32) -> u32,
) -> Result<ValueView, QueryError> {
    match eval_from(program, cell, 0, Seq::empty(), arith) {
        Ok(stack) => if stack.len() == 1 {
            Ok(stack[0])
        } else {
            Err(QueryError::NoOperation)
        },
        Err(e) => Err(e),
    }
}

/// The whole program is one leaf.
pub open spec fn is_bare_leaf(program: Seq<ExprView>) -> bool {
    program.len() == 1 && program[0].is_leaf()
}

/// The program is no operation at all: it is empty or a bare leaf.
pub open spec fn is_trivial(program: Seq<ExprView>) -> bool {
    program.len() == 0 || is_bare_leaf(program)
}

/// The value of `program` as a top-level expression: a trivial program is
/// `NoOperation`, any other has the value that `spec_compute` gives.
pub open spec fn spec_evaluate(
    program: Seq<ExprView>,
    cell: ValueView,
    arith: spec_fn(Arithmetic, u32, u32) -> u32,
) -> Result<ValueView, QueryError> {
    if is_trivial(program) {
        Err(QueryError::NoOperation)
    } else {
        spec_compute(program, cell, arith)
    }
}

/// The row's cell satisfies the predicate: it evaluates to true.
pub open spec fn holds(
    program: Seq<ExprView>,
    cell: ValueView,
    arith: spec_fn(Arithmetic, u32, u32) -> u32,
) -> bool {
    spec_evaluate(program, cell, arith) == Ok::<ValueView, QueryError>(ValueView::Bool(true))
}

/// `a < b` on two binary32 numbers given by their bits.
pub fn float_bits_lt(a: u32, b: u32) -> (out: bool)
    ensures
        out == float_lt(a, b),
{
    !float_bits_nan(a) && !float_bits_nan(b) && float_bits_rank(a) < float_bits_rank(b)
}

/// `a <= b` on two binary32 numbers given by their bits.
pub fn float_bits_le(a: u32, b: u32) -> (out: bool)
    ensures
        out == float_le(a, b),
{
    !float_bits_nan(a) && !float_bits_nan(b) && float_bits_rank(a) <= float_bits_rank(b)
}

/// `a == b` on two binary32 numbers given by their bits.
pub fn float_bits_eq(a: u32, b: u32) -> (out: bool)
    ensures
        out == float_eq(a, b),
{
    !float_bits_nan(a) && !float_bits_nan(b) && float_bits_rank(a) == float_bits_rank(b)
}

fn float_bits_nan(bits: u32) -> (out: bool)
    ensures
        out == float_is_nan(bits),
{
    (bits & 0x7f80_0000u32) == 0x7f80_0000u32 && (bits & 0x007f_ffffu32) != 0u32
}

fn float_bits_rank(bits: u32) -> (out: i64)
    ensures
        out == float_rank(bits),
{
    let magnitude: u32 = bits & 0x7fff_ffffu32;
    if (bits & 0x8000_0000u32) != 0u32 {
        -(magnitude as i64)
    } else {
        magnitude as i64
    }
}

/// The evaluator of postfix programs.
pub struct ExprEvaluator {}

impl ExprEvaluator {
    /// Applies a binary operator to its two operands.
    pub fn apply<A: FloatArithmetic>(op: &Expr, left: Value, right: Value, unit: &A) -> (out:
        Result<Value, QueryError>)
        ensures
            outcome_view(out) == apply_binary(op@, left@, right@, arith_of(unit)),
    {
        match (left, right) {
            (Value::Int(a), Value::Int(b)) => match op {
                Expr::Add => Ok(Value::Int(a.wrapping_add(b))),
                Expr::Sub => Ok(Value::Int(a.wrapping_sub(b))),
                Expr::Mul => Ok(Value::Int(a.wrapping_mul(b))),
                Expr::Div => match a.checked_div(b) {
                    Some(q) => Ok(Value::Int(q)),
                    None => Err(QueryError::OperatorMismatch),
                },
                Expr::Gt => Ok(Value::Bool(a > b)),
                Expr::Lt => Ok(Value::Bool(a < b)),
                Expr::GtEq => Ok(Value::Bool(a >= b)),
                Expr::LtEq => Ok(Value::Bool(a <= b)),
                Expr::Eq => Ok(Value::Bool(a == b)),
                Expr::Neq => Ok(Value::Bool(a != b)),
                _ => Err(QueryError::TypeMismatch),
            },
            (Value::Float(a), Value::Float(b)) => match op {
                Expr::Add => Ok(Value::Float(unit.arith(Arithmetic::Add, a, b))),
                Expr::Sub => Ok(Value::Float(unit.arith(Arithmetic::Sub, a, b))),
                Expr::Mul => Ok(Value::Float(unit.arith(Arithmetic::Mul, a, b))),
                Expr::Div => Ok(Value::Float(unit.arith(Arithmetic::Div, a, b))),
                Expr::Gt => Ok(Value::Bool(float_bits_lt(b, a))),
                Expr::Lt => Ok(Value::Bool(float_bits_lt(a, b))),
                Expr::GtEq => Ok(Value::Bool(float_bits_le(b, a))),
                Expr::LtEq => Ok(Value::Bool(float_bits_le(a, b))),
                Expr::Eq => Ok(Value::Bool(float_bits_eq(a, b))),
                Expr::Neq => Ok(Value::Bool(!float_bits_eq(a, b))),
                _ => Err(QueryError::TypeMismatch),
            },
            (Value::String(a), Value::String(b)) => match op {
                Expr::Add => Ok(Value::String(a.concat(b.as_str()))),
                Expr::Eq => Ok(Value::Bool(a == b)),
                Expr::Neq => Ok(Value::Bool(a != b)),
                _ => Err(QueryError::TypeMismatch),
            },
            (Value::Bool(a), Value::Bool(b)) => match op {
                Expr::And => Ok(Value::Bool(a && b)),
                Expr::Or => Ok(Value::Bool(a || b)),
                Expr::Eq => Ok(Value::Bool(a == b)),
                Expr::Neq => Ok(Value::Bool(a != b)),
                _ => Err(QueryError::TypeMismatch),
            },
            _ => Err(QueryError::TypeMismatch),
        }
    }

    /// Runs `query` on an empty stack with `value` bound to the cell leaf and
    /// gives the one value that is left. A bare leaf has its own value.
    pub fn compute<A: FloatArithmetic>(query: &Vec<Expr>, value: &Value, unit: &A) -> (out: Result<
        Value,
        QueryError,
    >)
        ensures
            outcome_view(out) == spec_compute(program_view(query@), value@, arith_of(unit)),
    {
        let ghost program = program_view(query@);
        let mut stack: Vec<Value> = Vec::new();
        let mut i: usize = 0;
        assert(stack_view(stack@) =~= Seq::<ValueView>::empty());
        while i < query.len()
            invariant
                i <= query.len(),
                program == program_view(query@),
                eval_from(program, value@, i as int, stack_view(stack@), arith_of(unit))
                    == eval_from(program, value@, 0, Seq::empty(), arith_of(unit)),
            decreases query.len() - i,
        {
            let ghost before = stack_view(stack@);
            assert(program[i as int] == query@[i as int]@);
            match &query[i] {
                Expr::Value(v) => {
                    stack.push(v.clone());
                    assert(stack_view(stack@) =~= before.push(v@));
                },
                Expr::Cell => {
                    stack.push(value.clone());
                    assert(stack_view(stack@) =~= before.push(value@));
                },
                Expr::Not => {
                    if stack.len() < 1 {
                        return Err(QueryError::StackUnderflow);
                    }
                    let top = stack.pop().unwrap();
                    assert(top@ == before.last());
                    match top {
                        Value::Bool(b) => {
                            stack.push(Value::Bool(!b));
                            assert(stack_view(stack@) =~= before.drop_last().push(
                                ValueView::Bool(!b),
                            ));
                        },
                        _ => {
                            return Err(QueryError::TypeMismatch);
                        },
                    }
                },
                op => {
                    if stack.len() < 2 {
                        return Err(QueryError::StackUnderflow);
                    }
                    let right = stack.pop().unwrap();
                    let left = stack.pop().unwrap();
                    assert(right@ == before[before.len() - 1]);
                    assert(left@ == before[before.len() - 2]);
                    match ExprEvaluator::apply(op, left, right, unit) {
                        Ok(v) => {
                            stack.push(v);
                            assert(stack_view(stack@) =~= before.drop_last().drop_last().push(v@));
                        },
                        Err(e) => {
                            return Err(e);
                        },
                    }
                },
            }
            i = i + 1;
        }
        if stack.len() != 1 {
            Err(QueryError::NoOperation)
        } else {
            let only = stack.pop().unwrap();
            Ok(only)
        }
    }

    /// Whether `query` is empty or a bare leaf.
    pub fn trivial(query: &Vec<Expr>) -> (out: bool)
        ensures
            out == is_trivial(program_view(query@)),
    {
        if query.len() == 0 {
            true
        } else if query.len() == 1 {
            match &query[0] {
                Expr::Value(_) => true,
                Expr::Cell => true,
                _ => false,
            }
        } else {
            false
        }
    }

    /// Evaluates `query` as a top-level expression with `value` bound to the
    /// cell leaf and `unit` doing the arithmetic of floats. An empty query or
    /// a bare leaf is `NoOperation`.
    pub fn evaluate<A: FloatArithmetic>(query: Vec<Expr>, value: Value, unit: &A) -> (out: Result<
        Value,
        QueryError,
    >)
        ensures
            outcome_view(out) == spec_evaluate(program_view(query@), value@, arith_of(unit)),
    {
        if ExprEvaluator::trivial(&query) {
            Err(QueryError::NoOperation)
        } else {
            ExprEvaluator::compute(&query, &value, unit)
        }
    }
}

} // verus!
