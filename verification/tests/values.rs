use rlox::expr::Boperator;
use rlox::interpret::env::Env;
use rlox::interpret::helpers::{binary_cmp_op, binary_num_op, equal, truthy};
use rlox::interpret::lox_type::{LoxCallee, LoxType};
use rlox::interpret::lox_value::{LoxFn, LoxValue};
use rlox::interpret::runtime_error::{
    LoxFunctionError, LoxRuntimeError, LoxRuntimeErrorType, LoxTypeError, LoxTypeMismatch,
    LoxVariableError,
};
use rlox::number;

fn num(x: f64) -> LoxValue {
    LoxValue::Num(x.to_bits())
}

fn text(s: &str) -> LoxValue {
    LoxValue::Str(s.to_string())
}

fn name(s: &str) -> String {
    s.to_string()
}

fn function(params: &[&str]) -> LoxFn {
    LoxFn::new(
        name("f"),
        Vec::new(),
        params.iter().map(|p: &&str| p.to_string()).collect(),
        Env::global(),
    )
}

fn as_number(v: Option<&LoxValue>) -> f64 {
    match v {
        Some(LoxValue::Num(n)) => f64::from_bits(*n),
        other => panic!("{:?}", other),
    }
}

fn samples() -> Vec<f64> {
    vec![
        0.0,
        -0.0,
        1.0,
        -1.0,
        2.0,
        3.0,
        0.5,
        -0.5,
        1e-320,
        -1e-320,
        f64::MIN_POSITIVE,
        f64::MAX,
        f64::MIN,
        f64::INFINITY,
        f64::NEG_INFINITY,
        f64::NAN,
        -f64::NAN,
        f64::EPSILON,
        123456789.125,
        -123456789.125,
    ]
}

#[test]
fn comparisons_on_bits_are_those_of_doubles() {
    for a in samples() {
        for b in samples() {
            let (x, y) = (a.to_bits(), b.to_bits());
            assert_eq!(number::less(x, y), a < b, "{} < {}", a, b);
            assert_eq!(number::less_equal(x, y), a <= b, "{} <= {}", a, b);
            assert_eq!(number::greater(x, y), a > b, "{} > {}", a, b);
            assert_eq!(number::greater_equal(x, y), a >= b, "{} >= {}", a, b);
            assert_eq!(number::equal(x, y), a == b, "{} == {}", a, b);
        }
    }
}

#[test]
fn negation_on_bits_is_that_of_doubles() {
    for a in samples() {
        assert_eq!(number::negate(a.to_bits()), (-a).to_bits());
        assert_eq!(number::is_nan(a.to_bits()), a.is_nan());
    }
}

#[test]
fn three_is_greater_than_two() {
    let (three, two) = (3f64.to_bits(), 2f64.to_bits());
    assert!(number::greater(three, two));
    assert!(number::greater_equal(three, two));
    assert!(!number::less_equal(three, two));
    assert!(!number::less(three, two));
}

#[test]
fn truthy_values() {
    assert!(truthy(&num(0.0)));
    assert!(truthy(&num(1.0)));
    assert!(truthy(&num(f64::NAN)));
    assert!(truthy(&text("")));
    assert!(truthy(&text("x")));
    assert!(truthy(&LoxValue::Bool(true)));
    assert!(truthy(&LoxValue::Function(function(&[]))));
    assert!(!truthy(&LoxValue::Bool(false)));
    assert!(!truthy(&LoxValue::Nil));
}

#[test]
fn equal_values() {
    assert!(equal(&num(1.0), &num(1.0)));
    assert!(equal(&num(0.0), &num(-0.0)));
    assert!(!equal(&num(f64::NAN), &num(f64::NAN)));
    assert!(!equal(&num(1.0), &num(2.0)));
    assert!(equal(&text("a"), &text("a")));
    assert!(!equal(&text("a"), &text("b")));
    assert!(equal(&LoxValue::Bool(false), &LoxValue::Bool(false)));
    assert!(!equal(&LoxValue::Bool(false), &LoxValue::Bool(true)));
    assert!(equal(&LoxValue::Nil, &LoxValue::Nil));
    assert!(!equal(&LoxValue::Nil, &LoxValue::Bool(false)));
    assert!(!equal(&num(1.0), &text("1")));
    assert!(!equal(&text(""), &LoxValue::Nil));
    let f = LoxValue::Function(function(&[]));
    assert!(!equal(&f, &f));
}

#[test]
fn numeric_operands() {
    match binary_num_op(&num(1.0), &num(2.0), 3) {
        Ok((a, b)) => {
            assert_eq!(f64::from_bits(a), 1.0);
            assert_eq!(f64::from_bits(b), 2.0);
        }
        Err(e) => panic!("{:?}", e),
    }
    let e = binary_num_op(&num(1.0), &text("x"), 3).unwrap_err();
    assert_eq!(e.line, 3);
    assert_eq!(e.to_string().unwrap(), "Error on line 3: Expected Num, but found Str");
    let e = binary_num_op(&LoxValue::Nil, &text("x"), 4).unwrap_err();
    assert_eq!(e.to_string().unwrap(), "Error on line 4: Expected Num, but found Nil");
    let e = binary_num_op(&LoxValue::Bool(true), &num(1.0), 5).unwrap_err();
    assert_eq!(e.to_string().unwrap(), "Error on line 5: Expected Num, but found Bool");
}

#[test]
fn comparison_operators() {
    let check = |op: Boperator, a: f64, b: f64, expected: bool| match binary_cmp_op(&num(a), &num(b), op, 1) {
        Ok(LoxValue::Bool(r)) => assert_eq!(r, expected, "{:?} {} {}", op, a, b),
        other => panic!("{:?}", other),
    };
    check(Boperator::Greater, 3.0, 2.0, true);
    check(Boperator::GreaterEqual, 3.0, 2.0, true);
    check(Boperator::LessEqual, 3.0, 2.0, false);
    check(Boperator::Less, 3.0, 2.0, false);
    check(Boperator::Greater, 2.0, 3.0, false);
    check(Boperator::GreaterEqual, 2.0, 3.0, false);
    check(Boperator::LessEqual, 2.0, 3.0, true);
    check(Boperator::Less, 2.0, 3.0, true);
    check(Boperator::GreaterEqual, 2.0, 2.0, true);
    check(Boperator::LessEqual, 2.0, 2.0, true);
    let e = binary_cmp_op(&text("a"), &num(1.0), Boperator::Less, 8).unwrap_err();
    assert_eq!(e.to_string().unwrap(), "Error on line 8: Expected Num, but found Str");
}

#[test]
fn types_of_values() {
    assert_eq!(LoxType::of(&num(1.0)), LoxType::Num);
    assert_eq!(LoxType::of(&text("")), LoxType::Str);
    assert_eq!(LoxType::of(&LoxValue::Bool(true)), LoxType::Bool);
    assert_eq!(LoxType::of(&LoxValue::Nil), LoxType::Nil);
    assert_eq!(LoxType::of(&LoxValue::Function(function(&["a", "b"]))), LoxType::Function(2));
    assert_eq!(LoxType::from(LoxValue::Nil), LoxType::Nil);
    assert_eq!(LoxType::from(num(2.0)), LoxType::Num);
}

#[test]
fn type_texts() {
    assert_eq!(LoxType::Num.to_string(), "Num");
    assert_eq!(LoxType::Str.to_string(), "Str");
    assert_eq!(LoxType::Bool.to_string(), "Bool");
    assert_eq!(LoxType::Nil.to_string(), "Nil");
    assert_eq!(LoxType::Function(3).to_string(), "Function with arity 3");
    assert_eq!(LoxType::Function(4294967295).to_string(), "Function with arity 4294967295");
}

#[test]
fn value_texts() {
    assert_eq!(text("a b").to_string(), Some("a b".to_string()));
    assert_eq!(LoxValue::Bool(true).to_string(), Some("true".to_string()));
    assert_eq!(LoxValue::Bool(false).to_string(), Some("false".to_string()));
    assert_eq!(LoxValue::Nil.to_string(), Some("nil".to_string()));
    assert_eq!(
        LoxValue::Function(function(&["a"])).to_string(),
        Some("Function with arity 1".to_string())
    );
    assert_eq!(num(1.0).to_string(), None);
    assert_eq!(function(&["a", "b", "c"]).to_string(), "Function with arity 3");
}

#[test]
fn mismatch_texts() {
    let one = LoxTypeMismatch::new(LoxType::Nil, LoxType::Bool);
    assert_eq!(one.found, LoxType::Nil);
    assert_eq!(one.expected, vec![LoxType::Bool]);
    assert_eq!(one.to_string(), "Expected Bool, but found Nil");
    let two = LoxTypeMismatch::newMany(LoxType::Nil, vec![LoxType::Num, LoxType::Str]);
    assert_eq!(two.found, LoxType::Nil);
    assert_eq!(two.expected, vec![LoxType::Num, LoxType::Str]);
    assert_eq!(two.to_string(), "Expected Numor Str, but found Nil");
    assert_eq!(LoxTypeError::Mismatch(one).to_string(), "Expected Bool, but found Nil");
}

#[test]
fn error_texts() {
    assert_eq!(
        LoxVariableError::Missing(name("x")).to_string(),
        "Variable x does not exist"
    );
    assert_eq!(
        LoxFunctionError::ArgPrmCountMismatch(1, 2).to_string(),
        Some("Expected 1 arguments but found 2".to_string())
    );
    assert_eq!(
        LoxFunctionError::NonFnReturn.to_string(),
        Some("Cannot return from outside a function".to_string())
    );
    assert_eq!(
        LoxFunctionError::NotCallable(text("s")).to_string(),
        Some("Expression s is not callable".to_string())
    );
    assert_eq!(LoxFunctionError::NotCallable(num(1.0)).to_string(), None);
    let e = LoxRuntimeError::new(LoxVariableError::Missing(name("y")).into(), 12);
    assert_eq!(e.line, 12);
    assert_eq!(e.to_string(), Some("Error on line 12: Variable y does not exist".to_string()));
    let e = LoxRuntimeError::new(LoxFunctionError::NotCallable(num(1.5)).into(), 1);
    assert_eq!(e.to_string(), None);
    assert_eq!(e.number().map(f64::from_bits), Some(1.5));
    assert_eq!(e.to_string_with("1.5"), "Error on line 1: Expression 1.5 is not callable");
    let e = LoxRuntimeError::new(LoxFunctionError::NotCallable(LoxValue::Nil).into(), 3);
    assert_eq!(e.number(), None);
    assert_eq!(e.to_string_with("unused"), "Error on line 3: Expression nil is not callable");
    assert_eq!(num(2.0).to_string_with("2"), "2");
    assert_eq!(text("two").to_string_with("2"), "two");
    let e = LoxRuntimeError::new(
        LoxTypeError::Mismatch(LoxTypeMismatch::new(LoxType::Str, LoxType::Num)).into(),
        2,
    );
    assert!(matches!(e.errorType, LoxRuntimeErrorType::TypeError(_)));
    assert_eq!(e.to_string(), Some("Error on line 2: Expected Num, but found Str".to_string()));
}

#[test]
fn arity_is_the_number_of_parameters() {
    assert_eq!(function(&[]).arity(), 0);
    assert_eq!(function(&["a", "b"]).arity(), 2);
    assert_eq!(function(&["a", "b"]).parameters().len(), 2);
    assert!(function(&["a"]).body().is_empty());
}

#[test]
fn global_environment_is_empty() {
    let env = Env::global();
    assert!(env.get(&name("x")).is_none());
    assert!(!env.contains_key(&name("x")));
    assert!(env.end().is_none());
}

#[test]
fn declare_then_get() {
    let mut env = Env::global();
    assert!(env.decl(name("x"), num(1.0)).is_none());
    assert_eq!(as_number(env.get(&name("x"))), 1.0);
    assert!(env.contains_key(&name("x")));
    assert!(!env.contains_key(&name("y")));
    let old = env.decl(name("x"), num(2.0));
    assert_eq!(as_number(old.as_ref()), 1.0);
    assert_eq!(as_number(env.get(&name("x"))), 2.0);
}

#[test]
fn inner_scope_shadows_and_ends() {
    let mut outer = Env::global();
    outer.decl(name("x"), num(1.0));
    outer.decl(name("y"), num(5.0));
    let mut inner = Env::new(outer);
    assert_eq!(as_number(inner.get(&name("x"))), 1.0);
    assert!(inner.decl(name("x"), num(2.0)).is_none());
    assert_eq!(as_number(inner.get(&name("x"))), 2.0);
    assert_eq!(as_number(inner.get(&name("y"))), 5.0);
    let outer = *inner.end().unwrap();
    assert_eq!(as_number(outer.get(&name("x"))), 1.0);
}

#[test]
fn assign_writes_the_nearest_scope_that_declares() {
    let mut outer = Env::global();
    outer.decl(name("x"), num(1.0));
    let mut inner = Env::new(Env::new(outer));
    let old = inner.assign(name("x"), num(2.0));
    assert_eq!(as_number(old.as_ref()), 1.0);
    assert_eq!(as_number(inner.get(&name("x"))), 2.0);
    inner.decl(name("x"), num(3.0));
    inner.assign(name("x"), num(4.0));
    assert_eq!(as_number(inner.get(&name("x"))), 4.0);
    let outer = inner.leave().leave();
    assert_eq!(as_number(outer.get(&name("x"))), 2.0);
}

#[test]
fn assign_to_an_undeclared_name_declares_it_globally() {
    let mut inner = Env::new(Env::new(Env::global()));
    assert!(inner.assign(name("z"), num(9.0)).is_none());
    assert!(inner.contains_key(&name("z")));
    let middle = inner.leave();
    let global = middle.leave();
    assert_eq!(as_number(global.get(&name("z"))), 9.0);
    assert!(global.end().is_none());
}

#[test]
fn leave_stays_in_the_global_scope() {
    let mut env = Env::global();
    env.decl(name("x"), num(1.0));
    let env = env.leave();
    assert_eq!(as_number(env.get(&name("x"))), 1.0);
}

#[test]
fn a_copy_is_independent() {
    let mut env = Env::global();
    env.decl(name("x"), num(1.0));
    let mut copy = env.clone();
    copy.assign(name("x"), num(2.0));
    assert_eq!(as_number(env.get(&name("x"))), 1.0);
    assert_eq!(as_number(copy.get(&name("x"))), 2.0);
}

#[test]
fn call_binds_parameters_in_a_new_scope() {
    let mut closure = Env::global();
    closure.decl(name("a"), num(0.0));
    closure.decl(name("k"), num(7.0));
    let f = LoxFn::new(name("f"), Vec::new(), vec![name("a"), name("b")], closure);
    let local = f.call(vec![num(1.0), num(2.0)]);
    assert_eq!(as_number(local.get(&name("a"))), 1.0);
    assert_eq!(as_number(local.get(&name("b"))), 2.0);
    assert_eq!(as_number(local.get(&name("k"))), 7.0);
    let outer = local.leave();
    assert_eq!(as_number(outer.get(&name("a"))), 0.0);
    assert_eq!(as_number(f.closure().get(&name("a"))), 0.0);
    let same = LoxFn::new(name("g"), Vec::new(), vec![name("p"), name("p")], Env::global());
    let local = same.call(vec![num(1.0), num(2.0)]);
    assert_eq!(as_number(local.get(&name("p"))), 2.0);
}

#[test]
fn rebind_changes_the_closure_only() {
    let mut other = Env::global();
    other.decl(name("x"), num(1.0));
    let f = function(&["a"]).rebind(other);
    assert_eq!(f.arity(), 1);
    assert_eq!(as_number(f.closure().get(&name("x"))), 1.0);
}
