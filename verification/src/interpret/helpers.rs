//! The rules of the operators.
use vstd::prelude::*;
use crate::expr::Boperator;
use crate::interpret::lox_type::{LoxType, type_of};
use crate::interpret::lox_value::{LoxValue, ValueView};
use crate::interpret::runtime_error::{LoxRuntimeError, LoxRuntimeErrorType, LoxTypeError,
    LoxTypeMismatch, RuntimeErrorView, mismatch};
use crate::number;

verus! {

/// Truthiness: every value counts as true but `false` and `nil`.
pub open spec fn truth(v: ValueView) -> bool {
    match v {
        ValueView::Bool(b) => b,
        ValueView::Nil => false,
        _ => true,
    }
}

/// Equality: two numbers, two strings, two booleans or two `nil`s can be
/// equal; values of different kinds never are, nor is a function equal
/// to anything.
pub open spec fn same(a: ValueView, b: ValueView) -> bool {
    match (a, b) {
        (ValueView::Num(x), ValueView::Num(y)) => number::eq(x, y),
        (ValueView::Str(x), ValueView::Str(y)) => x == y,
        (ValueView::Bool(x), ValueView::Bool(y)) => x == y,
        (ValueView::Nil, ValueView::Nil) => true,
        _ => false,
    }
}

/// The operands of a numeric operator, if both are numbers. If not, the
/// error names the operand at fault: the right one if the left is a
/// number, else the left one.
pub open spec fn operands(l: ValueView, r: ValueView, line: u32) -> Result<(u64, u64), RuntimeErrorView> {
    match (l, r) {
        (ValueView::Num(a), ValueView::Num(b)) => Ok((a, b)),
        (ValueView::Num(_), x) => Err(mismatch(type_of(x), seq![LoxType::Num], line)),
        (x, _) => Err(mismatch(type_of(x), seq![LoxType::Num], line)),
    }
}

/// What a comparison operator says of two numbers. The four operators are
/// four different relations.
pub open spec fn compared(op: Boperator, a: u64, b: u64) -> bool {
    match op {
        Boperator::Less => number::lt(a, b),
        Boperator::LessEqual => number::le(a, b),
        Boperator::Greater => number::gt(a, b),
        Boperator::GreaterEqual => number::ge(a, b),
        _ => false,
    }
}

/// What `+` is asked to do.
pub enum Sum {
    /// Add two numbers.
    Numbers(u64, u64),
    /// The concatenation of two strings.
    Text(Seq<char>),
    /// Neither: a type mismatch.
    Fault(RuntimeErrorView),
}

/// The rule of `+`: two numbers are added, two strings are joined. Of any
/// other pair the error names the operand at fault. Where one operand is a
/// number or a string, the other is at fault and that type was expected;
/// where neither is, the left one is at fault, and a number or a string
/// was expected.
pub open spec fn sum(l: ValueView, r: ValueView, line: u32) -> Sum {
    match (l, r) {
        (ValueView::Num(a), ValueView::Num(b)) => Sum::Numbers(a, b),
        (ValueView::Str(a), ValueView::Str(b)) => Sum::Text(a + b),
        (ValueView::Num(_), x) => Sum::Fault(mismatch(type_of(x), seq![LoxType::Num], line)),
        (ValueView::Str(_), x) => Sum::Fault(mismatch(type_of(x), seq![LoxType::Str], line)),
        (x, ValueView::Num(_)) => Sum::Fault(mismatch(type_of(x), seq![LoxType::Num], line)),
        (x, ValueView::Str(_)) => Sum::Fault(mismatch(type_of(x), seq![LoxType::Str], line)),
        (x, _) => Sum::Fault(mismatch(type_of(x), seq![LoxType::Num, LoxType::Str], line)),
    }
}

/// Whether a value counts as true.
pub fn truthy(value: &LoxValue) -> (r: bool)
    ensures
        r == truth(value@),
{
    match value {
        LoxValue::Num(_) => true,
        LoxValue::Str(_) => true,
        LoxValue::Bool(b) => *b,
        LoxValue::Function(_) => true,
        LoxValue::Nil => false,
    }
}

/// Whether two values are equal. No pair of values is an error.
pub fn equal(v1: &LoxValue, v2: &LoxValue) -> (r: bool)
    ensures
        r == same(v1@, v2@),
{
    match (v1, v2) {
        (LoxValue::Num(n1), LoxValue::Num(n2)) => number::equal(*n1, *n2),
        (LoxValue::Str(s1), LoxValue::Str(s2)) => s1.eq(s2),
        (LoxValue::Bool(b1), LoxValue::Bool(b2)) => *b1 == *b2,
        (LoxValue::Nil, LoxValue::Nil) => true,
        _ => false,
    }
}

/// The error for a value found where one of the type `expected` belongs.
pub fn type_mismatch(x: &LoxValue, expected: LoxType, line: u32) -> (e: LoxRuntimeError)
    ensures
        e@ == mismatch(type_of(x@), seq![expected], line),
{
    LoxRuntimeError::new(
        LoxRuntimeErrorType::TypeError(
            LoxTypeError::Mismatch(LoxTypeMismatch::new(LoxType::of(x), expected)),
        ),
        line,
    )
}

fn num_mismatch_err(x: &LoxValue, line: u32) -> (e: LoxRuntimeError)
    ensures
        e@ == mismatch(type_of(x@), seq![LoxType::Num], line),
{
    type_mismatch(x, LoxType::Num, line)
}

/// The operands of an arithmetic operator as numbers, or the error that
/// names the operand that is none. The operation itself is the host's.
pub fn binary_num_op(l: &LoxValue, r: &LoxValue, line: u32) -> (res: Result<(u64, u64), LoxRuntimeError>)
    ensures
        match res {
            Ok(p) => operands(l@, r@, line) == Ok::<(u64, u64), RuntimeErrorView>(p),
            Err(e) => operands(l@, r@, line) == Err::<(u64, u64), RuntimeErrorView>(e@),
        },
{
    match (l, r) {
        (LoxValue::Num(n1), LoxValue::Num(n2)) => Ok((*n1, *n2)),
        (LoxValue::Num(_), x) => Err(num_mismatch_err(x, line)),
        (x, _) => Err(num_mismatch_err(x, line)),
    }
}

/// Compares two numbers by the comparison operator `o`, or gives the
/// error that names the operand that is no number.
pub fn binary_cmp_op(l: &LoxValue, r: &LoxValue, o: Boperator, line: u32) -> (res: Result<LoxValue, LoxRuntimeError>)
    ensures
        match res {
            Ok(v) => operands(l@, r@, line) matches Ok(p) && v@ == ValueView::Bool(
                compared(o, p.0, p.1),
            ),
            Err(e) => operands(l@, r@, line) == Err::<(u64, u64), RuntimeErrorView>(e@),
        },
{
    match binary_num_op(l, r, line) {
        Ok((a, b)) => {
            let holds = match o {
                Boperator::Less => number::less(a, b),
                Boperator::LessEqual => number::less_equal(a, b),
                Boperator::Greater => number::greater(a, b),
                Boperator::GreaterEqual => number::greater_equal(a, b),
                _ => false,
            };
            Ok(LoxValue::Bool(holds))
        },
        Err(e) => Err(e),
    }
}

/// Numbers count as true, zero included; so do strings, the empty one
/// included, and functions. Only `false` and `nil` count as false.
pub proof fn lemma_truth(v: ValueView)
    ensures
        truth(v) == !(v == ValueView::Nil || v == ValueView::Bool(false)),
        v is Num ==> truth(v),
        v is Str ==> truth(v),
        v is Function ==> truth(v),
{
}

/// Equality never fails and is symmetric; values of different kinds are
/// unequal.
pub proof fn lemma_same(a: ValueView, b: ValueView)
    ensures
        same(a, b) == same(b, a),
        type_of(a) != type_of(b) ==> !same(a, b),
{
}

/// `>` and `>=` are not `<=`: on numbers that are no NaNs, `a > b` holds
/// exactly where `a <= b` fails, and `a >= b` exactly where `a < b` fails.
pub proof fn lemma_compared(a: u64, b: u64)
    ensures
        compared(Boperator::Greater, a, b) == compared(Boperator::Less, b, a),
        compared(Boperator::GreaterEqual, a, b) == compared(Boperator::LessEqual, b, a),
        !number::nan(a) && !number::nan(b) ==> compared(Boperator::Greater, a, b) == !compared(
            Boperator::LessEqual,
            a,
            b,
        ),
        !number::nan(a) && !number::nan(b) ==> compared(Boperator::GreaterEqual, a, b)
            == !compared(Boperator::Less, a, b),
{
}

} // verus!
