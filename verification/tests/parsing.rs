use rlox::expr::stmt::{Decl, Stmt};
use rlox::expr::{Boperator, Expr, ExprType, Literal, Loperator, Uoperator};
use rlox::numeral::Numeral;
use rlox::parse::Parser;
use rlox::scan::scan;
use rlox::static_error::LoxStaticError;
use rlox::token::{Token, TokenType};

fn parse(source: &str) -> (Vec<Decl>, Vec<LoxStaticError>) {
    let (tokens, errors) = scan(source.to_string());
    assert!(errors.is_empty());
    Parser::new(tokens).parse()
}

fn texts(source: &str) -> Vec<String> {
    let (decls, errors) = parse(source);
    assert!(errors.is_empty(), "{:?}", errors);
    decls.iter().map(|d: &Decl| d.to_string()).collect()
}

fn messages(source: &str) -> Vec<(u32, String)> {
    let (_, errors) = parse(source);
    errors.into_iter().map(|e: LoxStaticError| (e.line, e.message)).collect()
}

#[test]
fn empty_program() {
    let (decls, errors) = parse("");
    assert!(decls.is_empty());
    assert!(errors.is_empty());
}

#[test]
fn factor_binds_tighter_than_term() {
    assert_eq!(texts("1 + 2 * 3;"), vec!["(+ 1 (* 2 3));"]);
    assert_eq!(texts("1 * 2 + 3;"), vec!["(+ (* 1 2) 3);"]);
    assert_eq!(texts("6 / 2 - 1;"), vec!["(- (/ 6 2) 1);"]);
}

#[test]
fn infix_operators_associate_to_the_left() {
    assert_eq!(texts("1 - 2 - 3;"), vec!["(- (- 1 2) 3);"]);
    assert_eq!(texts("8 / 4 / 2;"), vec!["(/ (/ 8 4) 2);"]);
    assert_eq!(texts("a or b or c;"), vec!["(or (or a b) c);"]);
    assert_eq!(texts("a == b != c;"), vec!["(!= (== a b) c);"]);
    assert_eq!(texts("a < b <= c > d >= e;"), vec!["(>= (> (<= (< a b) c) d) e);"]);
}

#[test]
fn precedence_order() {
    assert_eq!(texts("a or b and c;"), vec!["(or a (and b c));"]);
    assert_eq!(texts("a and b == c;"), vec!["(and a (== b c));"]);
    assert_eq!(texts("a == b < c;"), vec!["(== a (< b c));"]);
    assert_eq!(texts("a < b + c;"), vec!["(< a (+ b c));"]);
    assert_eq!(texts("a + b * c;"), vec!["(+ a (* b c));"]);
    assert_eq!(texts("a * -b;"), vec!["(* a (- b));"]);
    assert_eq!(texts("-f(1);"), vec!["(- f(1));"]);
    assert_eq!(texts("1 < 2 == 3 >= 4;"), vec!["(== (< 1 2) (>= 3 4));"]);
    assert_eq!(texts("x = a or b;"), vec!["x = (or a b);"]);
}

#[test]
fn unary_operators_nest() {
    assert_eq!(texts("!!true;"), vec!["(! (! true));"]);
    assert_eq!(texts("-!-1;"), vec!["(- (! (- 1)));"]);
    assert_eq!(texts("!true == false;"), vec!["(== (! true) false);"]);
}

#[test]
fn grouping() {
    assert_eq!(texts("(1 + 2) * 3;"), vec!["(* (group (+ 1 2)) 3);"]);
    assert_eq!(texts("((a));"), vec!["(group (group a));"]);
}

#[test]
fn assignment_associates_to_the_right() {
    assert_eq!(texts("a = b = 1;"), vec!["a = b = 1;"]);
    let (decls, _) = parse("a = b = 1;");
    match &decls[0] {
        Decl::Stmt(Stmt::ExprStmt(Expr { exprType: ExprType::Assignment(outer), .. })) => {
            assert_eq!(outer.id, "a");
            match &outer.expr.exprType {
                ExprType::Assignment(inner) => assert_eq!(inner.id, "b"),
                other => panic!("{:?}", other),
            }
        }
        other => panic!("{:?}", other),
    }
}

#[test]
fn invalid_assignment_target_is_recorded_and_parsing_goes_on() {
    let (decls, errors) = parse("1 = 2;\nprint 3;");
    assert_eq!(errors.len(), 1);
    assert_eq!(errors[0].line, 1);
    assert_eq!(errors[0].message, "Invalid assignment target");
    let got: Vec<String> = decls.iter().map(|d: &Decl| d.to_string()).collect();
    assert_eq!(got, vec!["1;", "print 3;"]);
    assert_eq!(messages("a + b = c;"), vec![(1, "Invalid assignment target".to_string())]);
    assert_eq!(messages("(a) = 1;"), vec![(1, "Invalid assignment target".to_string())]);
}

#[test]
fn calls_are_postfix() {
    assert_eq!(texts("f();"), vec!["f();"]);
    assert_eq!(texts("f(1);"), vec!["f(1);"]);
    assert_eq!(texts("f(1, 2);"), vec!["f(12);"]);
    assert_eq!(texts("f(a)(b)(c);"), vec!["f(a)(b)(c);"]);
    assert_eq!(texts("f(g(1), 2 + 3);"), vec!["f(g(1)(+ 2 3));"]);
    let (decls, _) = parse("f(1, 2, 3);");
    match &decls[0] {
        Decl::Stmt(Stmt::ExprStmt(Expr { exprType: ExprType::Call(c), line })) => {
            assert_eq!(c.arguments.len(), 3);
            assert_eq!(*line, 1);
        }
        other => panic!("{:?}", other),
    }
}

#[test]
fn a_call_stands_on_the_line_of_its_closing_parenthesis() {
    let (decls, errors) = parse("f(\n1,\n2\n);");
    assert!(errors.is_empty());
    match &decls[0] {
        Decl::Stmt(Stmt::ExprStmt(e)) => assert_eq!(e.line, 4),
        other => panic!("{:?}", other),
    }
}

#[test]
fn at_most_255_arguments() {
    let mut source = String::from("f(");
    for i in 0..255 {
        if i > 0 {
            source.push_str(", ");
        }
        source.push_str("1");
    }
    let ok = format!("{});", source);
    let (decls, errors) = parse(&ok);
    assert!(errors.is_empty());
    match &decls[0] {
        Decl::Stmt(Stmt::ExprStmt(Expr { exprType: ExprType::Call(c), .. })) => {
            assert_eq!(c.arguments.len(), 255)
        }
        other => panic!("{:?}", other),
    }
    let too_many = format!("{},\n 1, 1);\nprint 2;", source);
    let (decls, errors) = parse(&too_many);
    assert_eq!(
        messages(&too_many),
        vec![
            (2, "Can't have more than 255 arguments".to_string()),
            (2, "Can't have more than 255 arguments".to_string()),
        ]
    );
    assert_eq!(errors.len(), 2);
    assert_eq!(decls.len(), 2);
    match &decls[0] {
        Decl::Stmt(Stmt::ExprStmt(Expr { exprType: ExprType::Call(c), .. })) => {
            assert_eq!(c.arguments.len(), 257)
        }
        other => panic!("{:?}", other),
    }
    assert_eq!(decls[1].to_string(), "print 2;");
}

#[test]
fn at_most_255_parameters() {
    let mut source = String::from("fun f(");
    for i in 0..255 {
        if i > 0 {
            source.push_str(", ");
        }
        source.push_str(&format!("p{}", i));
    }
    let ok = format!("{}) {{}}", source);
    let (decls, errors) = parse(&ok);
    assert!(errors.is_empty());
    match &decls[0] {
        Decl::FunDecl(_, params, _) => assert_eq!(params.len(), 255),
        other => panic!("{:?}", other),
    }
    let too_many = format!("{}, q) {{}}", source);
    let (decls, errors) = parse(&too_many);
    assert_eq!(errors.len(), 1);
    assert_eq!(errors[0].message, "Can't have more than 255 parameters");
    match &decls[0] {
        Decl::FunDecl(_, params, _) => assert_eq!(params.len(), 256),
        other => panic!("{:?}", other),
    }
}

#[test]
fn literals() {
    let (decls, _) = parse("1.5; \"s\"; true; false; nil;");
    let kinds: Vec<String> = decls
        .iter()
        .map(|d: &Decl| match d {
            Decl::Stmt(Stmt::ExprStmt(Expr { exprType: ExprType::Literal(l), .. })) => match l {
                Literal::Num(n) => format!("num {}", n.as_str()),
                Literal::Str(s) => format!("str {}", s),
                Literal::Bool(b) => format!("bool {}", b),
                Literal::Nil => "nil".to_string(),
            },
            other => panic!("{:?}", other),
        })
        .collect();
    assert_eq!(kinds, vec!["num 1.5", "str s", "bool true", "bool false", "nil"]);
}

#[test]
fn variable_declarations() {
    assert_eq!(texts("var x = 1 + 2;"), vec!["var x = (+ 1 2);"]);
    assert_eq!(texts("var x;"), vec!["var x = nil;"]);
}

#[test]
fn function_declarations() {
    assert_eq!(
        texts("fun add(a, b) { return a + b; }"),
        vec!["fun add(ab) {\nreturn (+ a b);\n}"]
    );
    assert_eq!(texts("fun f() {}"), vec!["fun f() {\n}"]);
    let (decls, _) = parse("fun add(a, b) { print a; return b; }");
    match &decls[0] {
        Decl::FunDecl(name, params, body) => {
            assert_eq!(name, "add");
            assert_eq!(params, &vec!["a".to_string(), "b".to_string()]);
            assert_eq!(body.len(), 2);
        }
        other => panic!("{:?}", other),
    }
}

#[test]
fn statements() {
    assert_eq!(texts("print 1;"), vec!["print 1;"]);
    assert_eq!(texts("return;"), vec!["return nil;"]);
    assert_eq!(texts("return 1;"), vec!["return 1;"]);
    assert_eq!(texts("{ print 1; var a; }"), vec!["{\nprint 1;\nvar a = nil;\n}"]);
    assert_eq!(texts("{}"), vec!["{\n}"]);
    assert_eq!(texts("while (a) print 1;"), vec!["while a\nprint 1;;"]);
    assert_eq!(texts("if (a) print 1;"), vec!["if a\nprint 1;"]);
    assert_eq!(texts("if (a) print 1; else print 2;"), vec!["if a\nprint 1;\nelse print 2;"]);
}

#[test]
fn else_belongs_to_the_nearest_if() {
    let (decls, _) = parse("if (a) if (b) print 1; else print 2;");
    match &decls[0] {
        Decl::Stmt(Stmt::IfStmt(_, inner, outer_else)) => {
            assert!(outer_else.is_none());
            assert!(matches!(**inner, Stmt::IfStmt(_, _, Some(_))));
        }
        other => panic!("{:?}", other),
    }
}

#[test]
fn for_becomes_while() {
    assert_eq!(
        texts("for (var i = 0; i < 3; i = i + 1) print i;"),
        vec!["{\nvar i = 0;\nwhile (< i 3)\n{\nprint i;\ni = (+ i 1);\n};\n}"]
    );
    assert_eq!(texts("for (;;) print 1;"), vec!["while true\nprint 1;;"]);
    assert_eq!(texts("for (; a;) print 1;"), vec!["while a\nprint 1;;"]);
    assert_eq!(texts("for (i = 0;;) print 1;"), vec!["{\ni = 0;\nwhile true\nprint 1;;\n}"]);
    assert_eq!(
        texts("for (;; i = i + 1) print 1;"),
        vec!["while true\n{\nprint 1;\ni = (+ i 1);\n};"]
    );
}

#[test]
fn for_without_condition_tests_true_on_the_line_of_the_clause() {
    let (decls, _) = parse("for (;\n;) print 1;");
    match &decls[0] {
        Decl::Stmt(Stmt::WhileStmt(c, _)) => {
            assert!(matches!(c.exprType, ExprType::Literal(Literal::Bool(true))));
            assert_eq!(c.line, 2);
        }
        other => panic!("{:?}", other),
    }
}

#[test]
fn two_broken_statements_give_two_errors() {
    assert_eq!(
        messages("print 1 2;\nprint 3 4;"),
        vec![
            (1, "Expected \";\" after value".to_string()),
            (2, "Expected \";\" after value".to_string()),
        ]
    );
    assert_eq!(
        messages("var a = 1 1;\nvar b = 2 2;"),
        vec![
            (1, "Expected \";\" after variable declaration".to_string()),
            (2, "Expected \";\" after variable declaration".to_string()),
        ]
    );
}

#[test]
fn an_error_in_an_expression_gives_one_error_per_statement() {
    assert_eq!(
        messages("print ;\nprint ;"),
        vec![(1, "Expected expression".to_string()), (2, "Expected expression".to_string())]
    );
    assert_eq!(
        messages("var = 1;\nvar = 2;"),
        vec![(1, "Expected variable name".to_string()), (2, "Expected variable name".to_string())]
    );
    assert_eq!(
        messages("print (1;\nx = (2;\nprint 3;"),
        vec![(1, "Expected \")\"".to_string()), (2, "Expected \")\"".to_string())]
    );
}

#[test]
fn the_statement_after_a_broken_one_loses_no_token() {
    let (decls, errors) = parse("print 1 2; var ok = 3; print ok;");
    assert_eq!(errors.len(), 1);
    let got: Vec<String> = decls.iter().map(|d: &Decl| d.to_string()).collect();
    assert_eq!(got, vec!["print 1;", "var ok = 3;", "print ok;"]);
    let (decls, errors) = parse("print (1 2; -3;");
    assert_eq!(errors.len(), 1);
    let got: Vec<String> = decls.iter().map(|d: &Decl| d.to_string()).collect();
    assert_eq!(got, vec!["print (group 1);", "(- 3);"]);
}

#[test]
fn synchronisation_stops_at_a_statement_keyword() {
    let (decls, errors) = parse("print (1 2 3 var x = 1;");
    assert_eq!(errors.len(), 1);
    assert_eq!(errors[0].message, "Expected \")\"");
    assert_eq!(errors[0].line, 1);
    let got: Vec<String> = decls.iter().map(|d: &Decl| d.to_string()).collect();
    assert_eq!(got, vec!["print (group 1);", "var x = 1;"]);
    for keyword in ["class", "fun f() {}", "var y;", "for (;false;) 1;", "if (a) 1;", "while (a) 1;", "print 1;", "return 1;"] {
        let (_, errors) = parse(&format!("print 1 2 3 {}", keyword));
        assert_eq!(errors[0].message, "Expected \";\" after value");
    }
}

#[test]
fn a_broken_statement_in_a_block_does_not_end_the_block() {
    let (decls, errors) = parse("{ print 1 2; print 3; } print 4;");
    assert_eq!(errors.len(), 1);
    let got: Vec<String> = decls.iter().map(|d: &Decl| d.to_string()).collect();
    assert_eq!(got, vec!["{\nprint 1;\nprint 3;\n}", "print 4;"]);
}

#[test]
fn error_messages() {
    assert_eq!(messages(";")[0], (1, "Expected expression".to_string()));
    assert_eq!(messages("(1;")[0], (1, "Expected \")\"".to_string()));
    assert_eq!(messages("var 1;")[0], (1, "Expected variable name".to_string()));
    assert_eq!(messages("fun 1() {}")[0], (1, "Expected function name".to_string()));
    assert_eq!(messages("fun f {}")[0], (1, "Expected \"(\" after function name".to_string()));
    assert_eq!(messages("fun f(1) {}")[0], (1, "Expected parameter name".to_string()));
    assert_eq!(messages("fun f(a {}")[0], (1, "Expected \")\" after parameters".to_string()));
    assert_eq!(messages("fun f() print 1;")[0], (1, "Expected \"{\" before function body".to_string()));
    assert_eq!(messages("if a) print 1;")[0], (1, "Expected \"(\" after \"if\"".to_string()));
    assert_eq!(messages("if (a print 1;")[0], (1, "Expected \")\" after if condition".to_string()));
    assert_eq!(messages("while a) print 1;")[0], (1, "Expected \"(\" after \"while\"".to_string()));
    assert_eq!(
        messages("while (a print 1;")[0],
        (1, "Expected \")\" after while condition".to_string())
    );
    assert_eq!(messages("for a;;) print 1;")[0], (1, "Expected \"(\" after \"for\"".to_string()));
    assert_eq!(
        messages("for (;a b;) print 1;")[0],
        (1, "Expected \";\" after loop condition".to_string())
    );
    assert_eq!(
        messages("for (;;a b) print 1;")[0],
        (1, "Expected \")\" after for clauses".to_string())
    );
    assert_eq!(messages("return 1 2;")[0], (1, "Expected \";\" after return value".to_string()));
    assert_eq!(messages("f(1 2);")[0], (1, "Expected \")\" after argument".to_string()));
}

#[test]
fn a_block_that_runs_into_the_end_of_input() {
    assert_eq!(
        messages("{ print 1;\nprint 2;"),
        vec![(2, "Expected \"}\" after block".to_string())]
    );
    assert_eq!(messages("{"), vec![(1, "Expected \"}\" after block".to_string())]);
    assert_eq!(messages("{ { }"), vec![]);
}

#[test]
fn errors_at_the_end_of_input() {
    assert_eq!(messages("print"), vec![(1, "Expected expression".to_string())]);
    assert_eq!(messages("print 1"), vec![(1, "Expected \";\" after value".to_string())]);
    let (decls, errors) = parse("1 +");
    assert_eq!(errors.len(), 1);
    assert_eq!(decls.len(), 1);
}

#[test]
fn parsing_stops_at_the_first_end_of_input() {
    let tokens = vec![
        Token::new(TokenType::PRINT, 1),
        Token::new(TokenType::NUMBER(Numeral::new("1".to_string()).unwrap()), 1),
        Token::new(TokenType::SEMICOLON, 1),
        Token::new(TokenType::EOF, 1),
        Token::new(TokenType::PRINT, 2),
        Token::new(TokenType::EOF, 2),
    ];
    let (decls, errors) = Parser::new(tokens).parse();
    assert!(errors.is_empty());
    assert_eq!(decls.len(), 1);
}

#[test]
fn operators_from_tokens() {
    assert_eq!(Boperator::try_from(&TokenType::PLUS), Ok(Boperator::Plus));
    assert_eq!(Boperator::try_from(&TokenType::MINUS), Ok(Boperator::Minus));
    assert_eq!(Boperator::try_from(&TokenType::STAR), Ok(Boperator::Star));
    assert_eq!(Boperator::try_from(&TokenType::SLASH), Ok(Boperator::Slash));
    assert_eq!(Boperator::try_from(&TokenType::EQUAL_EQUAL), Ok(Boperator::EqualEqual));
    assert_eq!(Boperator::try_from(&TokenType::BANG_EQUAL), Ok(Boperator::BangEqual));
    assert_eq!(Boperator::try_from(&TokenType::LESS), Ok(Boperator::Less));
    assert_eq!(Boperator::try_from(&TokenType::LESS_EQUAL), Ok(Boperator::LessEqual));
    assert_eq!(Boperator::try_from(&TokenType::GREATER), Ok(Boperator::Greater));
    assert_eq!(Boperator::try_from(&TokenType::GREATER_EQUAL), Ok(Boperator::GreaterEqual));
    assert_eq!(Boperator::try_from(&TokenType::BANG), Err(()));
    assert_eq!(Loperator::try_from(&TokenType::OR), Ok(Loperator::Or));
    assert_eq!(Loperator::try_from(&TokenType::AND), Ok(Loperator::And));
    assert_eq!(Loperator::try_from(&TokenType::PLUS), Err(()));
    assert_eq!(Uoperator::try_from(&TokenType::BANG), Ok(Uoperator::Bang));
    assert_eq!(Uoperator::try_from(&TokenType::MINUS), Ok(Uoperator::Minus));
    assert_eq!(Uoperator::try_from(&TokenType::PLUS), Err(()));
    assert!(matches!(Literal::try_from(&TokenType::NIL), Ok(Literal::Nil)));
    assert!(matches!(Literal::try_from(&TokenType::BOOL(true)), Ok(Literal::Bool(true))));
    assert!(matches!(Literal::try_from(&TokenType::EOF), Err(())));
    match Literal::try_from(&TokenType::NUMBER(Numeral::new("2.5".to_string()).unwrap())) {
        Ok(Literal::Num(n)) => assert_eq!(n.as_str(), "2.5"),
        other => panic!("{:?}", other),
    }
}

#[test]
fn operator_texts() {
    let all = [
        (Boperator::EqualEqual, "=="),
        (Boperator::BangEqual, "!="),
        (Boperator::Less, "<"),
        (Boperator::LessEqual, "<="),
        (Boperator::Greater, ">"),
        (Boperator::GreaterEqual, ">="),
        (Boperator::Plus, "+"),
        (Boperator::Minus, "-"),
        (Boperator::Star, "*"),
        (Boperator::Slash, "/"),
    ];
    for (op, text) in all {
        assert_eq!(op.to_string(), text);
    }
    assert_eq!(Loperator::Or.to_string(), "or");
    assert_eq!(Loperator::And.to_string(), "and");
    assert_eq!(Uoperator::Minus.to_string(), "-");
    assert_eq!(Uoperator::Bang.to_string(), "!");
}

#[test]
fn copies_have_the_same_text() {
    let (decls, _) = parse("fun f(a) { for (var i = 0; i < a; i = i + 1) { if (i == 2) print g(i, \"x\"); else return -i; } }");
    let copy = decls[0].clone();
    assert_eq!(copy.to_string(), decls[0].to_string());
}

#[test]
fn expr_new_keeps_its_parts() {
    let e = Expr::new(ExprType::Variable("x".to_string()), 9);
    assert_eq!(e.line, 9);
    assert_eq!(e.to_string(), "x");
}
