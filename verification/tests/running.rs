use rlox::interpret::env::Env;
use rlox::interpret::runtime_error::{
    LoxFunctionError, LoxRuntimeError, LoxRuntimeErrorType, LoxTypeError, LoxVariableError,
};
use rlox::interpret::lox_type::LoxType;
use rlox::interpret::lox_value::LoxValue;
use rlox::interpret::semantics::Arith;
use rlox::interpret::{execute, Ask, Reply, Request};
use rlox::parse::Parser;
use rlox::scan::scan;

fn answer(ask: &Ask) -> Reply {
    match ask {
        Ask::Parse(numeral) => Reply::Number(numeral.as_str().parse::<f64>().unwrap().to_bits()),
        Ask::Compute(op, a, b) => {
            let x = f64::from_bits(*a);
            let y = f64::from_bits(*b);
            let r = match op {
                Arith::Add => x + y,
                Arith::Sub => x - y,
                Arith::Mul => x * y,
                Arith::Div => x / y,
            };
            Reply::Number(r.to_bits())
        }
        Ask::Format(n) => Reply::Text(format!("{}", f64::from_bits(*n))),
    }
}

struct Run {
    printed: Vec<String>,
    error: Option<LoxRuntimeError>,
    env: Env,
}

fn run_in(source: &str, env: Env) -> Run {
    let (tokens, errors) = scan(source.to_string());
    assert!(errors.is_empty());
    let (program, errors) = Parser::new(tokens).parse();
    assert!(errors.is_empty(), "{:?}", errors);
    let mut machine = execute(program, env);
    let mut reply = Reply::Nothing;
    let mut printed = Vec::new();
    let mut error = None;
    let mut steps = 0;
    loop {
        steps += 1;
        assert!(steps < 1_000_000);
        let (next, request) = machine.step(reply);
        machine = next;
        reply = Reply::Nothing;
        match request {
            Request::Continue => {}
            Request::Ask(ask) => reply = answer(&ask),
            Request::Print(line) => printed.push(line),
            Request::Done => break,
            Request::Failed(e) => {
                error = Some(e);
                break;
            }
        }
    }
    assert!(machine.stopped());
    Run { printed, error, env: machine.end() }
}

fn run(source: &str) -> Run {
    run_in(source, Env::global())
}

fn prints(source: &str) -> Vec<String> {
    let r = run(source);
    assert!(r.error.is_none(), "{:?}", r.error);
    r.printed
}

fn fails(source: &str) -> LoxRuntimeError {
    run(source).error.expect("a runtime error")
}

fn mismatch(e: &LoxRuntimeError) -> (LoxType, Vec<LoxType>) {
    match &e.errorType {
        LoxRuntimeErrorType::TypeError(LoxTypeError::Mismatch(m)) => (m.found, m.expected.clone()),
        other => panic!("not a type mismatch: {:?}", other),
    }
}

#[test]
fn arithmetic_is_that_of_doubles() {
    assert_eq!(prints("print 1 + 2;"), vec!["3"]);
    assert_eq!(prints("print 7 - 10;"), vec!["-3"]);
    assert_eq!(prints("print 1.5 * 4;"), vec!["6"]);
    assert_eq!(prints("print 1 / 4;"), vec!["0.25"]);
    assert_eq!(prints("print 0.1 + 0.2;"), vec![format!("{}", 0.1f64 + 0.2f64)]);
    assert_eq!(prints("print 2 + 3 * 4 - 6 / 2;"), vec!["11"]);
    assert_eq!(prints("print (2 + 3) * 4;"), vec!["20"]);
}

#[test]
fn division_by_zero_is_no_error() {
    assert_eq!(prints("print 1 / 0;"), vec!["inf"]);
    assert_eq!(prints("print -1 / 0;"), vec!["-inf"]);
    assert_eq!(prints("print 0 / 0;"), vec!["NaN"]);
    assert_eq!(prints("print 0 / 0 == 0 / 0;"), vec!["false"]);
}

#[test]
fn strings_concatenate() {
    assert_eq!(prints("print \"foo\" + \"bar\";"), vec!["foobar"]);
    let r = run("var s = \"foo\" + \"bar\";");
    match r.env.get(&"s".to_string()) {
        Some(LoxValue::Str(s)) => assert_eq!(s, "foobar"),
        other => panic!("{:?}", other),
    }
}

#[test]
fn number_plus_string_names_the_mismatched_side() {
    let e = fails("print 1 +\n \"x\";");
    assert_eq!(mismatch(&e), (LoxType::Str, vec![LoxType::Num]));
    let e = fails("print \"x\" + 1;");
    assert_eq!(mismatch(&e), (LoxType::Num, vec![LoxType::Str]));
    assert_eq!(e.line, 1);
    let e = fails("print nil + 1;");
    assert_eq!(mismatch(&e), (LoxType::Nil, vec![LoxType::Num]));
    let e = fails("print true + \"x\";");
    assert_eq!(mismatch(&e), (LoxType::Bool, vec![LoxType::Str]));
    let e = fails("print nil + true;");
    assert_eq!(mismatch(&e), (LoxType::Nil, vec![LoxType::Num, LoxType::Str]));
}

#[test]
fn arithmetic_wants_numbers() {
    let e = fails("print 1 - \"x\";");
    assert_eq!(mismatch(&e), (LoxType::Str, vec![LoxType::Num]));
    let e = fails("print nil * 2;");
    assert_eq!(mismatch(&e), (LoxType::Nil, vec![LoxType::Num]));
    let e = fails("print true / false;");
    assert_eq!(mismatch(&e), (LoxType::Bool, vec![LoxType::Num]));
    let e = fails("print 1 < \"2\";");
    assert_eq!(mismatch(&e), (LoxType::Str, vec![LoxType::Num]));
}

#[test]
fn truthiness() {
    assert_eq!(prints("print !nil;"), vec!["true"]);
    assert_eq!(prints("print !false;"), vec!["true"]);
    assert_eq!(prints("print !true;"), vec!["false"]);
    assert_eq!(prints("print !0;"), vec!["false"]);
    assert_eq!(prints("print !\"\";"), vec!["false"]);
    assert_eq!(prints("fun f() {} print !f;"), vec!["false"]);
}

#[test]
fn unary_minus_negates_numbers_only() {
    assert_eq!(prints("print -3;"), vec!["-3"]);
    assert_eq!(prints("print --3;"), vec!["3"]);
    assert_eq!(prints("print -0;"), vec!["-0"]);
    let e = fails("print -true;");
    assert_eq!(mismatch(&e), (LoxType::Bool, vec![LoxType::Num]));
    let e = fails("print -\"x\";");
    assert_eq!(mismatch(&e), (LoxType::Str, vec![LoxType::Num]));
}

#[test]
fn comparison_operators_are_four_relations() {
    assert_eq!(prints("print 3 > 2;"), vec!["true"]);
    assert_eq!(prints("print 3 >= 2;"), vec!["true"]);
    assert_eq!(prints("print 3 <= 2;"), vec!["false"]);
    assert_eq!(prints("print 3 < 2;"), vec!["false"]);
    assert_eq!(prints("print 2 > 3;"), vec!["false"]);
    assert_eq!(prints("print 2 >= 3;"), vec!["false"]);
    assert_eq!(prints("print 2 <= 3;"), vec!["true"]);
    assert_eq!(prints("print 2 < 3;"), vec!["true"]);
    assert_eq!(prints("print 2 >= 2;"), vec!["true"]);
    assert_eq!(prints("print 2 <= 2;"), vec!["true"]);
    assert_eq!(prints("print 2 > 2;"), vec!["false"]);
    assert_eq!(prints("print 2 < 2;"), vec!["false"]);
    assert_eq!(prints("print -1 < 1;"), vec!["true"]);
    assert_eq!(prints("print -2 < -1;"), vec!["true"]);
    assert_eq!(prints("print -0 < 0;"), vec!["false"]);
    assert_eq!(prints("print 0.5 < 0.25;"), vec!["false"]);
}

#[test]
fn equality_never_fails() {
    assert_eq!(prints("print 1 == 1;"), vec!["true"]);
    assert_eq!(prints("print 1 != 1;"), vec!["false"]);
    assert_eq!(prints("print 0 == -0;"), vec!["true"]);
    assert_eq!(prints("print \"a\" == \"a\";"), vec!["true"]);
    assert_eq!(prints("print \"a\" == \"b\";"), vec!["false"]);
    assert_eq!(prints("print nil == nil;"), vec!["true"]);
    assert_eq!(prints("print true == true;"), vec!["true"]);
    assert_eq!(prints("print 1 == \"1\";"), vec!["false"]);
    assert_eq!(prints("print 1 != \"1\";"), vec!["true"]);
    assert_eq!(prints("print nil == false;"), vec!["false"]);
    assert_eq!(prints("fun f() {} print f == f;"), vec!["false"]);
}

#[test]
fn logical_operators_short_circuit() {
    assert_eq!(prints("print nil or 2;"), vec!["2"]);
    assert_eq!(prints("print 1 or 2;"), vec!["1"]);
    assert_eq!(prints("print nil and 2;"), vec!["nil"]);
    assert_eq!(prints("print 1 and 2;"), vec!["2"]);
    assert_eq!(prints("var a = 1; true or (a = 2); print a;"), vec!["1"]);
    assert_eq!(prints("var a = 1; false and (a = 2); print a;"), vec!["1"]);
    assert_eq!(prints("var a = 1; false or (a = 2); print a;"), vec!["2"]);
}

#[test]
fn precedence_rises_from_or_to_factor() {
    assert_eq!(prints("print false or 1 == 1;"), vec!["true"]);
    assert_eq!(prints("print true and 1 < 2;"), vec!["true"]);
    assert_eq!(prints("print false or false and true;"), vec!["false"]);
    assert_eq!(prints("print 1 + 2 == 3;"), vec!["true"]);
    assert_eq!(prints("print 1 < 2 == true;"), vec!["true"]);
}

#[test]
fn shadowing() {
    assert_eq!(prints("var x = 1; { var x = 2; print x; } print x;"), vec!["2", "1"]);
}

#[test]
fn assignment_reaches_the_enclosing_scope() {
    assert_eq!(prints("var x = 1; { x = 2; } print x;"), vec!["2"]);
    assert_eq!(prints("var x = 1; { { x = x + 1; } x = x + 1; } print x;"), vec!["3"]);
}

#[test]
fn assignment_is_an_expression() {
    assert_eq!(prints("var a; var b; a = b = 3; print a; print b;"), vec!["3", "3"]);
    assert_eq!(prints("var a; print a = 2;"), vec!["2"]);
}

#[test]
fn a_variable_without_initialiser_is_nil() {
    assert_eq!(prints("var a; print a;"), vec!["nil"]);
}

#[test]
fn missing_variables() {
    let e = fails("print 1;\nprint y;");
    match &e.errorType {
        LoxRuntimeErrorType::VariableError(LoxVariableError::Missing(n)) => assert_eq!(n, "y"),
        other => panic!("{:?}", other),
    }
    assert_eq!(e.line, 2);
    let e = fails("y = 1;");
    match &e.errorType {
        LoxRuntimeErrorType::VariableError(LoxVariableError::Missing(n)) => assert_eq!(n, "y"),
        other => panic!("{:?}", other),
    }
}

#[test]
fn evaluation_stops_at_the_first_error() {
    let r = run("print 1; print nil + 1; print 2;");
    assert_eq!(r.printed, vec!["1"]);
    assert!(r.error.is_some());
}

#[test]
fn counter_sees_what_earlier_calls_did() {
    assert_eq!(
        prints("var i = 0; fun counter(){ i = i + 1; return i; } print counter(); print counter();"),
        vec!["1", "2"]
    );
}

#[test]
fn a_function_works_on_its_own_copy_of_the_environment() {
    assert_eq!(
        prints(
            "var i = 0; fun counter(){ i = i + 1; return i; } \
             counter(); counter(); print i; i = 10; print counter(); print i;"
        ),
        vec!["0", "3", "10"]
    );
}

#[test]
fn a_call_through_an_expression_leaves_no_trace() {
    assert_eq!(
        prints(
            "var i = 0; fun counter(){ i = i + 1; return i; } \
             print (counter)(); print (counter)(); print counter(); print counter();"
        ),
        vec!["1", "1", "1", "2"]
    );
}

#[test]
fn a_return_in_a_block_keeps_what_the_block_assigned() {
    assert_eq!(
        prints(
            "var i = 0; fun counter(){ if (true) { i = i + 1; return i; } } \
             print counter(); print counter();"
        ),
        vec!["1", "2"]
    );
}

#[test]
fn a_returned_function_reads_the_outer_variable_at_call_time() {
    assert_eq!(
        prints(
            "fun make() { var x = 1; fun inner() { return x; } return inner; } \
             var f = make(); print f();"
        ),
        vec!["1"]
    );
    assert_eq!(
        prints(
            "fun make() { var n = 0; fun next() { n = n + 1; return n; } return next; } \
             var c = make(); print c(); print c(); print c();"
        ),
        vec!["1", "2", "3"]
    );
}

#[test]
fn for_loop_counts() {
    assert_eq!(prints("for (var i = 0; i < 3; i = i + 1) print i;"), vec!["0", "1", "2"]);
}

#[test]
fn while_loop() {
    assert_eq!(
        prints("var i = 3; while (i > 0) { print i; i = i - 1; }"),
        vec!["3", "2", "1"]
    );
}

#[test]
fn conditions_must_be_booleans() {
    let e = fails("if (1) print 1;");
    assert_eq!(mismatch(&e), (LoxType::Num, vec![LoxType::Bool]));
    let e = fails("while (nil) print 1;");
    assert_eq!(mismatch(&e), (LoxType::Nil, vec![LoxType::Bool]));
    let e = fails("var i = 0; while (i < 1) { i = \"x\"; }");
    assert_eq!(mismatch(&e), (LoxType::Str, vec![LoxType::Num]));
}

#[test]
fn if_and_else() {
    assert_eq!(prints("if (true) print 1; else print 2;"), vec!["1"]);
    assert_eq!(prints("if (false) print 1; else print 2;"), vec!["2"]);
    assert_eq!(prints("if (false) print 1; print 3;"), vec!["3"]);
    assert_eq!(prints("if (1 < 2) { print 1; } else { print 2; }"), vec!["1"]);
}

#[test]
fn functions_take_arguments_in_order() {
    assert_eq!(prints("fun sub(a, b) { return a - b; } print sub(5, 2);"), vec!["3"]);
    assert_eq!(
        prints("fun show(a, b, c) { print a; print b; print c; } show(1, \"two\", nil);"),
        vec!["1", "two", "nil"]
    );
}

#[test]
fn arguments_are_evaluated_left_to_right() {
    assert_eq!(
        prints(
            "var n = 0; fun f(a, b) { return a * 10 + b; } \
             print f(n = n + 1, n = n + 1);"
        ),
        vec!["12"]
    );
}

#[test]
fn a_function_without_return_gives_nil() {
    assert_eq!(prints("fun f() { 1; } print f();"), vec!["nil"]);
    assert_eq!(prints("fun f() { return; } print f();"), vec!["nil"]);
}

#[test]
fn return_skips_what_follows_at_every_level() {
    assert_eq!(
        prints(
            "fun f() { print 1; if (true) { while (true) { { return 7; } print 2; } print 3; } print 4; } \
             print f(); print 5;"
        ),
        vec!["1", "7", "5"]
    );
    assert_eq!(prints("fun f() { return 1; print 2; } print f();"), vec!["1"]);
}

#[test]
fn return_outside_a_function_is_an_error() {
    let r = run("print 1;\nreturn 2;\nprint 3;");
    assert_eq!(r.printed, vec!["1"]);
    let e = r.error.expect("an error");
    assert!(matches!(
        e.errorType,
        LoxRuntimeErrorType::FunctionError(LoxFunctionError::NonFnReturn)
    ));
    assert_eq!(e.line, 2);
    let e = fails("{ if (true) { return; } }");
    assert!(matches!(
        e.errorType,
        LoxRuntimeErrorType::FunctionError(LoxFunctionError::NonFnReturn)
    ));
}

#[test]
fn calling_what_is_no_function() {
    let e = fails("var x = 1; x();");
    match &e.errorType {
        LoxRuntimeErrorType::FunctionError(LoxFunctionError::NotCallable(LoxValue::Num(n))) => {
            assert_eq!(f64::from_bits(*n), 1.0)
        }
        other => panic!("{:?}", other),
    }
    let e = fails("\"s\"();");
    assert!(matches!(
        e.errorType,
        LoxRuntimeErrorType::FunctionError(LoxFunctionError::NotCallable(LoxValue::Str(_)))
    ));
}

#[test]
fn argument_count_must_match() {
    let e = fails("fun f(a, b) {} f(1);");
    assert!(matches!(
        e.errorType,
        LoxRuntimeErrorType::FunctionError(LoxFunctionError::ArgPrmCountMismatch(1, 2))
    ));
    let e = fails("fun f() {} f(1, 2, 3);");
    assert!(matches!(
        e.errorType,
        LoxRuntimeErrorType::FunctionError(LoxFunctionError::ArgPrmCountMismatch(3, 0))
    ));
}

#[test]
fn print_forms() {
    assert_eq!(prints("print \"text\";"), vec!["text"]);
    assert_eq!(prints("print true; print false;"), vec!["true", "false"]);
    assert_eq!(prints("print nil;"), vec!["nil"]);
    assert_eq!(prints("print 12.5;"), vec!["12.5"]);
    assert_eq!(prints("fun f(a, b) {} print f;"), vec!["Function with arity 2"]);
    assert_eq!(prints("fun g() {} print g;"), vec!["Function with arity 0"]);
}

#[test]
fn the_environment_carries_over() {
    let first = run("var x = 1; fun twice(n) { return n * 2; }");
    assert!(first.error.is_none());
    let second = run_in("print twice(x + 2);", first.env);
    assert_eq!(second.printed, vec!["6"]);
}

#[test]
fn a_function_does_not_see_itself() {
    let e = fails("fun f(n) { if (n < 1) return 0; return f(n - 1); } print f(1);");
    match &e.errorType {
        LoxRuntimeErrorType::VariableError(LoxVariableError::Missing(n)) => assert_eq!(n, "f"),
        other => panic!("{:?}", other),
    }
}

#[test]
fn a_stopped_machine_stays_stopped() {
    let (tokens, _) = scan("print 1;".to_string());
    let (program, _) = Parser::new(tokens).parse();
    let mut machine = execute(program, Env::global());
    let mut reply = Reply::Nothing;
    loop {
        let (next, request) = machine.step(reply);
        machine = next;
        reply = match request {
            Request::Ask(ask) => answer(&ask),
            Request::Done => break,
            _ => Reply::Nothing,
        };
    }
    for _ in 0..3 {
        let (next, request) = machine.step(Reply::Number(0));
        machine = next;
        assert!(matches!(request, Request::Done));
        assert!(machine.stopped());
    }
}

#[test]
fn an_unanswered_question_is_asked_again() {
    let (tokens, _) = scan("print 1 + 2;".to_string());
    let (program, _) = Parser::new(tokens).parse();
    let mut machine = execute(program, Env::global());
    let mut asked = 0;
    let mut printed = Vec::new();
    let mut reply = Reply::Nothing;
    let mut dropped = false;
    loop {
        let (next, request) = machine.step(reply);
        machine = next;
        reply = Reply::Nothing;
        match request {
            Request::Ask(ask) => {
                asked += 1;
                if dropped {
                    reply = answer(&ask);
                    dropped = false;
                } else {
                    dropped = true;
                }
            }
            Request::Print(line) => printed.push(line),
            Request::Done => break,
            Request::Failed(e) => panic!("{:?}", e),
            Request::Continue => {}
        }
    }
    assert_eq!(printed, vec!["3"]);
    assert_eq!(asked, 8);
}

#[test]
fn a_text_with_lexical_errors_is_not_parsed() {
    let errors = rlox::run("print 1 ? ;\nprint ;".to_string(), Env::global()).unwrap_err();
    assert_eq!(errors.len(), 1);
    assert_eq!(errors[0].to_string(), "Error on line 1: Unexpected character");
}

#[test]
fn a_text_with_syntax_errors_is_not_run() {
    let errors = rlox::run("print 1;\nprint ;".to_string(), Env::global()).unwrap_err();
    assert_eq!(errors.len(), 1);
    assert_eq!(errors[0].to_string(), "Error on line 2: Expected expression");
}

#[test]
fn a_text_without_errors_is_set_up_to_run() {
    let mut machine = rlox::run("print \"a\"; print \"b\";".to_string(), Env::global()).unwrap();
    assert!(!machine.stopped());
    let mut printed = Vec::new();
    loop {
        let (next, request) = machine.step(Reply::Nothing);
        machine = next;
        match request {
            Request::Print(line) => printed.push(line),
            Request::Done => break,
            Request::Continue => {}
            other => panic!("{:?}", other),
        }
    }
    assert_eq!(printed, vec!["a", "b"]);
}
