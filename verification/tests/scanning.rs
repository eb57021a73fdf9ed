use rlox::numeral::Numeral;
use rlox::scan::{scan, scan_chars};
use rlox::text::{chars_of, classify, CharClass};
use rlox::token::{Token, TokenType};

fn kinds(source: &str) -> Vec<TokenType> {
    let (tokens, _) = scan(source.to_string());
    tokens.into_iter().map(|t: Token| t.tokenType).collect()
}

fn number(text: &str) -> TokenType {
    TokenType::NUMBER(Numeral::new(text.to_string()).unwrap())
}

fn identifier(text: &str) -> TokenType {
    TokenType::IDENTIFIER(text.to_string())
}

#[test]
fn empty_source_is_one_end_of_input() {
    let (tokens, errors) = scan(String::new());
    assert_eq!(tokens.len(), 1);
    assert_eq!(tokens[0].tokenType, TokenType::EOF);
    assert_eq!(tokens[0].line, 1);
    assert!(errors.is_empty());
}

#[test]
fn punctuation_and_operators() {
    assert_eq!(
        kinds("(){},.-+;*/ ! != = == < <= > >="),
        vec![
            TokenType::LEFT_PAREN,
            TokenType::RIGHT_PAREN,
            TokenType::LEFT_BRACE,
            TokenType::RIGHT_BRACE,
            TokenType::COMMA,
            TokenType::DOT,
            TokenType::MINUS,
            TokenType::PLUS,
            TokenType::SEMICOLON,
            TokenType::STAR,
            TokenType::SLASH,
            TokenType::BANG,
            TokenType::BANG_EQUAL,
            TokenType::EQUAL,
            TokenType::EQUAL_EQUAL,
            TokenType::LESS,
            TokenType::LESS_EQUAL,
            TokenType::GREATER,
            TokenType::GREATER_EQUAL,
            TokenType::EOF,
        ]
    );
}

#[test]
fn two_character_operators_after_a_number() {
    assert_eq!(
        kinds("1<=2"),
        vec![number("1"), TokenType::LESS_EQUAL, number("2"), TokenType::EOF]
    );
    assert_eq!(
        kinds("3>=2"),
        vec![number("3"), TokenType::GREATER_EQUAL, number("2"), TokenType::EOF]
    );
}

#[test]
fn keywords_and_identifiers() {
    assert_eq!(
        kinds("and class else false for fun if nil or print return super this true var while"),
        vec![
            TokenType::AND,
            TokenType::CLASS,
            TokenType::ELSE,
            TokenType::BOOL(false),
            TokenType::FOR,
            TokenType::FUN,
            TokenType::IF,
            TokenType::NIL,
            TokenType::OR,
            TokenType::PRINT,
            TokenType::RETURN,
            TokenType::SUPER,
            TokenType::THIS,
            TokenType::BOOL(true),
            TokenType::VAR,
            TokenType::WHILE,
            TokenType::EOF,
        ]
    );
    assert_eq!(
        kinds("android _x x1 forty"),
        vec![
            identifier("android"),
            identifier("_x"),
            identifier("x1"),
            identifier("forty"),
            TokenType::EOF
        ]
    );
}

#[test]
fn numbers_keep_their_numeral() {
    assert_eq!(kinds("12"), vec![number("12"), TokenType::EOF]);
    assert_eq!(kinds("12.5"), vec![number("12.5"), TokenType::EOF]);
    assert_eq!(kinds("007"), vec![number("007"), TokenType::EOF]);
}

#[test]
fn a_dot_without_a_digit_after_it_is_not_part_of_the_number() {
    assert_eq!(kinds("12."), vec![number("12"), TokenType::DOT, TokenType::EOF]);
    assert_eq!(
        kinds("12.x"),
        vec![number("12"), TokenType::DOT, identifier("x"), TokenType::EOF]
    );
    assert_eq!(
        kinds("1.5.3"),
        vec![number("1.5"), TokenType::DOT, number("3"), TokenType::EOF]
    );
}

#[test]
fn space_after_a_number_is_discarded() {
    assert_eq!(
        kinds("1 + 2"),
        vec![number("1"), TokenType::PLUS, number("2"), TokenType::EOF]
    );
}

#[test]
fn lines_are_counted_from_one() {
    let (tokens, _) = scan("a\nb\n\nc 1\n2".to_string());
    let lines: Vec<u32> = tokens.iter().map(|t: &Token| t.line).collect();
    assert_eq!(lines, vec![1, 2, 4, 4, 5, 5]);
}

#[test]
fn comments_run_to_the_end_of_the_line() {
    let (tokens, errors) = scan("a // b c ? \"\nd / e".to_string());
    assert!(errors.is_empty());
    let got: Vec<(TokenType, u32)> = tokens.into_iter().map(|t: Token| (t.tokenType, t.line)).collect();
    assert_eq!(
        got,
        vec![
            (identifier("a"), 1),
            (identifier("d"), 2),
            (TokenType::SLASH, 2),
            (identifier("e"), 2),
            (TokenType::EOF, 2),
        ]
    );
}

#[test]
fn strings_hold_their_content() {
    assert_eq!(
        kinds("\"foo\" \"\""),
        vec![
            TokenType::STRING("foo".to_string()),
            TokenType::STRING(String::new()),
            TokenType::EOF
        ]
    );
}

#[test]
fn a_line_break_in_a_string_is_counted_and_left_out() {
    let (tokens, errors) = scan("\"a\nb\" c".to_string());
    assert!(errors.is_empty());
    assert_eq!(tokens[0].tokenType, TokenType::STRING("ab".to_string()));
    assert_eq!(tokens[0].line, 2);
    assert_eq!(tokens[1].tokenType, identifier("c"));
    assert_eq!(tokens[1].line, 2);
}

#[test]
fn unterminated_string_is_an_error_and_ends_the_scan() {
    let (tokens, errors) = scan("x \"abc".to_string());
    assert_eq!(errors.len(), 1);
    assert_eq!(errors[0].line, 1);
    assert_eq!(errors[0].message, "Unterminated string");
    assert_eq!(errors[0].to_string(), "Error on line 1: Unterminated string");
    let got: Vec<TokenType> = tokens.into_iter().map(|t: Token| t.tokenType).collect();
    assert_eq!(
        got,
        vec![identifier("x"), TokenType::STRING("abc".to_string()), TokenType::EOF]
    );
}

#[test]
fn unexpected_characters_are_collected_and_scanning_goes_on() {
    let (tokens, errors) = scan("a ? b\n# c".to_string());
    assert_eq!(errors.len(), 2);
    assert_eq!(errors[0].line, 1);
    assert_eq!(errors[0].message, "Unexpected character");
    assert_eq!(errors[1].line, 2);
    assert_eq!(errors[1].to_string(), "Error on line 2: Unexpected character");
    let got: Vec<TokenType> = tokens.into_iter().map(|t: Token| t.tokenType).collect();
    assert_eq!(
        got,
        vec![identifier("a"), identifier("b"), identifier("c"), TokenType::EOF]
    );
}

#[test]
fn exactly_one_end_of_input_and_it_is_last() {
    for source in ["", "1", "1 ", "a b c", "\"open", "// c", "1\n"] {
        let found = kinds(source);
        let ends = found.iter().filter(|k: &&TokenType| **k == TokenType::EOF).count();
        assert_eq!(ends, 1);
        assert_eq!(found.last(), Some(&TokenType::EOF));
    }
}

#[test]
fn unicode_letters_make_identifiers() {
    assert_eq!(kinds("été"), vec![identifier("été"), TokenType::EOF]);
}

#[test]
fn token_new_keeps_its_parts() {
    let t = Token::new(TokenType::PLUS, 7);
    assert_eq!(t.tokenType, TokenType::PLUS);
    assert_eq!(t.line, 7);
}

#[test]
fn static_error_line_with_many_digits() {
    let e = rlox::static_error::LoxStaticError::new(4294967295, "m");
    assert_eq!(e.to_string(), "Error on line 4294967295: m");
    let e = rlox::static_error::LoxStaticError::new(0, "m");
    assert_eq!(e.to_string(), "Error on line 0: m");
    let e = rlox::static_error::LoxStaticError::new(120, "m");
    assert_eq!(e.to_string(), "Error on line 120: m");
}

#[test]
fn lines_never_go_down() {
    let (tokens, errors) = scan("a ?\n\"x\ny\" b\n// c\n? 1.5\n\"open\n".to_string());
    let lines: Vec<u32> = tokens.iter().map(|t: &Token| t.line).collect();
    assert_eq!(lines, vec![1, 3, 3, 5, 7, 7]);
    let error_lines: Vec<u32> = errors.iter().map(|e| e.line).collect();
    assert_eq!(error_lines, vec![1, 5, 7]);
}

#[test]
fn number_tokens_hold_numerals() {
    let (tokens, _) = scan("1 22.5 3. .4 5.6.7 8a 9_ 0.0".to_string());
    for t in &tokens {
        if let TokenType::NUMBER(n) = &t.tokenType {
            assert!(n.as_str().parse::<f64>().is_ok());
            let parts: Vec<&str> = n.as_str().split('.').collect();
            assert!(parts.len() == 1 || parts.len() == 2);
            for p in parts {
                assert!(!p.is_empty());
                assert!(p.chars().all(|c: char| c.is_ascii_digit()));
            }
        }
    }
    assert_eq!(
        kinds("3. .4 8a"),
        vec![
            number("3"),
            TokenType::DOT,
            TokenType::DOT,
            number("4"),
            number("8"),
            identifier("a"),
            TokenType::EOF
        ]
    );
}

#[test]
fn characters_are_classified() {
    let classes = classify(&vec!['a', 'Z', 'é', '7', '٣', '_', '+', ' ']);
    let letter = CharClass { alphabetic: true, alphanumeric: true };
    let numeric = CharClass { alphabetic: false, alphanumeric: true };
    let other = CharClass { alphabetic: false, alphanumeric: false };
    assert_eq!(classes, vec![letter, letter, letter, numeric, numeric, other, other, other]);
}

#[test]
fn the_lexer_goes_by_the_classes_it_is_given() {
    let chars = chars_of("ab+c1 ٣");
    let classes = classify(&chars);
    let (tokens, errors) = scan_chars(&chars, &classes);
    assert_eq!(errors.len(), 1);
    let got: Vec<TokenType> = tokens.into_iter().map(|t: Token| t.tokenType).collect();
    assert_eq!(
        got,
        vec![identifier("ab"), TokenType::PLUS, identifier("c1"), TokenType::EOF]
    );
    let other = CharClass { alphabetic: false, alphanumeric: false };
    let letter = CharClass { alphabetic: true, alphanumeric: true };
    let (tokens, errors) = scan_chars(&chars, &vec![other; chars.len()]);
    assert_eq!(errors.len(), 4);
    let got: Vec<TokenType> = tokens.into_iter().map(|t: Token| t.tokenType).collect();
    assert_eq!(got, vec![TokenType::PLUS, number("1"), TokenType::EOF]);
    let dollar = chars_of("$a $");
    let (tokens, errors) = scan_chars(&dollar, &vec![letter, letter, other, letter]);
    assert!(errors.is_empty());
    let got: Vec<TokenType> = tokens.into_iter().map(|t: Token| t.tokenType).collect();
    assert_eq!(got, vec![identifier("$a"), identifier("$"), TokenType::EOF]);
}
