//! The lexer: from source text to tokens.
//!
//! The model reads one lexeme at a time. [`lex`] says what stands at a
//! position, where the next lexeme starts and on which line; [`scan_from`]
//! chains those steps up to the end of the text.
//!
//! Which characters are letters is not decided here. The model takes the
//! class of each character beside the text; [`scan_chars`] is the lexer
//! on a text and its classes, and [`scan`] classifies the characters of
//! its text first.
use vstd::prelude::*;
use crate::static_error::{LoxStaticError, StaticErrorView, error_views};
use crate::numeral::{Numeral, digits_end, digits_until, lemma_digits_end,
    lemma_digits_end_within, numeral};
use crate::text::{CharClass, chars_of, class_of, classes, classify, digit, is_digit, push_char,
    string_of};
use crate::token::{keyword, reserved, token_views, Token, TokenType, TokenTypeView, TokenView};

verus! {

/// The line after a line break; the count stops at the largest number.
pub open spec fn next_line(line: u32) -> u32 {
    if line < u32::MAX {
        (line + 1) as u32
    } else {
        line
    }
}

/// The end of the numeral that starts at `pos`: a run of digits, and a
/// fraction if a dot follows that is itself followed by a digit.
pub open spec fn number_end(src: Seq<char>, pos: int) -> int {
    let e = digits_end(src, pos);
    if e + 1 < src.len() && src[e] == '.' && digit(src[e + 1]) {
        digits_end(src, e + 1)
    } else {
        e
    }
}

/// Whether a character of this class may start an identifier.
pub open spec fn word_start(c: char, class: CharClass) -> bool {
    class.alphabetic || c == '_'
}

/// Whether a character of this class may continue an identifier.
pub open spec fn word_char(c: char, class: CharClass) -> bool {
    class.alphanumeric || c == '_'
}

/// The first position at or after `pos` that cannot continue an identifier.
pub open spec fn word_end(src: Seq<char>, cls: Seq<CharClass>, pos: int) -> int
    decreases src.len() - pos,
{
    if 0 <= pos < src.len() && pos < cls.len() && word_char(src[pos], cls[pos]) {
        word_end(src, cls, pos + 1)
    } else {
        pos
    }
}

/// The position of the first line break at or after `pos`, or the end of
/// the text.
pub open spec fn line_end(src: Seq<char>, pos: int) -> int
    decreases src.len() - pos,
{
    if 0 <= pos < src.len() && src[pos] != '\n' {
        line_end(src, pos + 1)
    } else {
        pos
    }
}

/// What reading a string literal's body gives.
pub struct StringBody {
    /// The position after the closing quote, or the end of the text.
    pub next: int,
    /// The line on which the body ends.
    pub line: u32,
    /// The characters of the string: the body without its line breaks.
    pub content: Seq<char>,
    /// Whether a closing quote was found.
    pub closed: bool,
}

/// Reads a string body from `pos` on, with `content` read so far. Line
/// breaks inside the body are counted and left out of the content.
pub open spec fn string_body(src: Seq<char>, pos: int, line: u32, content: Seq<char>) -> StringBody
    decreases src.len() - pos,
{
    if pos < 0 || pos >= src.len() {
        StringBody { next: pos, line, content, closed: false }
    } else if src[pos] == '"' {
        StringBody { next: pos + 1, line, content, closed: true }
    } else if src[pos] == '\n' {
        string_body(src, pos + 1, next_line(line), content)
    } else {
        string_body(src, pos + 1, line, content.push(src[pos]))
    }
}

/// One step of the lexer.
pub struct Lexed {
    /// Where the next lexeme starts.
    pub next: int,
    /// The line there. A token is tagged with this line.
    pub line: u32,
    /// The token read, if the lexeme is one.
    pub token: Option<TokenTypeView>,
    /// The message of the error found, if any.
    pub error: Option<Seq<char>>,
}

/// A step over something that is no token.
pub open spec fn skip(next: int, line: u32) -> Lexed {
    Lexed { next, line, token: None, error: None }
}

/// A step over a token.
pub open spec fn token(next: int, line: u32, kind: TokenTypeView) -> Lexed {
    Lexed { next, line, token: Some(kind), error: None }
}

/// Whether an `=` follows the character at `pos`.
pub open spec fn equal_follows(src: Seq<char>, pos: int) -> bool {
    pos + 1 < src.len() && src[pos + 1] == '='
}

/// What stands at `pos`, for `0 <= pos < src.len()`, in a text whose
/// characters have the classes `cls`.
pub open spec fn lex(src: Seq<char>, cls: Seq<CharClass>, pos: int, line: u32) -> Lexed {
    let c = src[pos];
    if c == ' ' || c == '\r' || c == '\t' {
        skip(pos + 1, line)
    } else if c == '\n' {
        skip(pos + 1, next_line(line))
    } else if c == '(' {
        token(pos + 1, line, TokenTypeView::LEFT_PAREN)
    } else if c == ')' {
        token(pos + 1, line, TokenTypeView::RIGHT_PAREN)
    } else if c == '{' {
        token(pos + 1, line, TokenTypeView::LEFT_BRACE)
    } else if c == '}' {
        token(pos + 1, line, TokenTypeView::RIGHT_BRACE)
    } else if c == ',' {
        token(pos + 1, line, TokenTypeView::COMMA)
    } else if c == '.' {
        token(pos + 1, line, TokenTypeView::DOT)
    } else if c == '-' {
        token(pos + 1, line, TokenTypeView::MINUS)
    } else if c == '+' {
        token(pos + 1, line, TokenTypeView::PLUS)
    } else if c == ';' {
        token(pos + 1, line, TokenTypeView::SEMICOLON)
    } else if c == '*' {
        token(pos + 1, line, TokenTypeView::STAR)
    } else if c == '!' {
        if equal_follows(src, pos) {
            token(pos + 2, line, TokenTypeView::BANG_EQUAL)
        } else {
            token(pos + 1, line, TokenTypeView::BANG)
        }
    } else if c == '=' {
        if equal_follows(src, pos) {
            token(pos + 2, line, TokenTypeView::EQUAL_EQUAL)
        } else {
            token(pos + 1, line, TokenTypeView::EQUAL)
        }
    } else if c == '<' {
        if equal_follows(src, pos) {
            token(pos + 2, line, TokenTypeView::LESS_EQUAL)
        } else {
            token(pos + 1, line, TokenTypeView::LESS)
        }
    } else if c == '>' {
        if equal_follows(src, pos) {
            token(pos + 2, line, TokenTypeView::GREATER_EQUAL)
        } else {
            token(pos + 1, line, TokenTypeView::GREATER)
        }
    } else if c == '/' {
        if pos + 1 < src.len() && src[pos + 1] == '/' {
            skip(line_end(src, pos + 2), line)
        } else {
            token(pos + 1, line, TokenTypeView::SLASH)
        }
    } else if c == '"' {
        let body = string_body(src, pos + 1, line, Seq::empty());
        Lexed {
            next: body.next,
            line: body.line,
            token: Some(TokenTypeView::STRING(body.content)),
            error: if body.closed {
                None
            } else {
                Some("Unterminated string"@)
            },
        }
    } else if digit(c) {
        let e = number_end(src, pos);
        token(e, line, TokenTypeView::NUMBER(src.subrange(pos, e)))
    } else if word_start(c, cls[pos]) {
        let e = word_end(src, cls, pos + 1);
        let word = src.subrange(pos, e);
        token(
            e,
            line,
            match reserved(word) {
                Some(kind) => kind,
                None => TokenTypeView::IDENTIFIER(word),
            },
        )
    } else {
        Lexed { next: pos + 1, line, token: None, error: Some("Unexpected character"@) }
    }
}

/// The tokens and the errors of a text.
pub struct Scanned {
    pub tokens: Seq<TokenView>,
    pub errors: Seq<StaticErrorView>,
}

/// The token of a step, tagged with its line, if the step read one.
pub open spec fn token_of(l: Lexed) -> Seq<TokenView> {
    match l.token {
        Some(kind) => seq![TokenView { kind, line: l.line }],
        None => Seq::empty(),
    }
}

/// The error of a step, tagged with its line, if the step found one.
pub open spec fn error_of(l: Lexed) -> Seq<StaticErrorView> {
    match l.error {
        Some(message) => seq![StaticErrorView { line: l.line, message }],
        None => Seq::empty(),
    }
}

/// The tokens and errors of the text from `pos` on, starting on `line`.
/// The last token marks the end of input.
pub open spec fn scan_from(src: Seq<char>, cls: Seq<CharClass>, pos: int, line: u32) -> Scanned
    decreases src.len() - pos,
{
    if pos < 0 || pos >= src.len() {
        Scanned { tokens: seq![TokenView { kind: TokenTypeView::EOF, line }], errors: Seq::empty() }
    } else {
        let l = lex(src, cls, pos, line);
        proof {
            lemma_lex_advances(src, cls, pos, line);
        }
        let rest = scan_from(src, cls, l.next, l.line);
        Scanned { tokens: token_of(l) + rest.tokens, errors: error_of(l) + rest.errors }
    }
}

/// The tokens and errors of a whole text whose characters have the
/// classes `cls`. Lines are counted from 1.
pub open spec fn scanned_with(src: Seq<char>, cls: Seq<CharClass>) -> Scanned {
    scan_from(src, cls, 0, 1)
}

/// The tokens and errors of a whole text.
pub open spec fn scanned(src: Seq<char>) -> Scanned {
    scanned_with(src, classes(src))
}

proof fn lemma_word_end(src: Seq<char>, cls: Seq<CharClass>, pos: int)
    requires
        0 <= pos <= src.len(),
    ensures
        pos <= word_end(src, cls, pos) <= src.len(),
    decreases src.len() - pos,
{
    if pos < src.len() && pos < cls.len() && word_char(src[pos], cls[pos]) {
        lemma_word_end(src, cls, pos + 1);
    }
}

proof fn lemma_line_end(src: Seq<char>, pos: int)
    requires
        0 <= pos <= src.len(),
    ensures
        pos <= line_end(src, pos) <= src.len(),
    decreases src.len() - pos,
{
    if pos < src.len() && src[pos] != '\n' {
        lemma_line_end(src, pos + 1);
    }
}

proof fn lemma_string_body(src: Seq<char>, pos: int, line: u32, content: Seq<char>)
    requires
        0 <= pos <= src.len(),
    ensures
        pos <= string_body(src, pos, line, content).next <= src.len(),
    decreases src.len() - pos,
{
    if pos < src.len() && src[pos] != '"' {
        if src[pos] == '\n' {
            lemma_string_body(src, pos + 1, next_line(line), content);
        } else {
            lemma_string_body(src, pos + 1, line, content.push(src[pos]));
        }
    }
}

/// Every step of the lexer moves forward and stays inside the text.
pub proof fn lemma_lex_advances(src: Seq<char>, cls: Seq<CharClass>, pos: int, line: u32)
    requires
        0 <= pos < src.len(),
    ensures
        pos < lex(src, cls, pos, line).next <= src.len(),
{
    let c = src[pos];
    if c == '/' && pos + 1 < src.len() && src[pos + 1] == '/' {
        lemma_line_end(src, pos + 2);
    }
    if c == '"' {
        lemma_string_body(src, pos + 1, line, Seq::empty());
    }
    if digit(c) {
        lemma_digits_end(src, pos);
        let e = digits_end(src, pos);
        if e + 1 < src.len() {
            lemma_digits_end(src, e + 1);
        }
    }
    lemma_word_end(src, cls, pos + 1);
}

/// The token stream of any text ends with the end-of-input token, and
/// holds that token nowhere else.
pub proof fn lemma_scan_ends_input(src: Seq<char>, cls: Seq<CharClass>, pos: int, line: u32)
    ensures
        scan_from(src, cls, pos, line).tokens.len() > 0,
        scan_from(src, cls, pos, line).tokens.last().kind is EOF,
        forall|i: int|
            0 <= i < scan_from(src, cls, pos, line).tokens.len() - 1 ==> !(scan_from(src, cls, pos, line).tokens[i].kind is EOF),
    decreases src.len() - pos,
{
    if 0 <= pos < src.len() {
        let l = lex(src, cls, pos, line);
        lemma_lex_advances(src, cls, pos, line);
        lemma_scan_ends_input(src, cls, l.next, l.line);
        let rest = scan_from(src, cls, l.next, l.line);
        let all = scan_from(src, cls, pos, line).tokens;
        assert(all == token_of(l) + rest.tokens);
        assert(l.token matches Some(k) ==> !(k is EOF));
        assert forall|i: int| 0 <= i < all.len() - 1 implies !(all[i].kind is EOF) by {
            if i >= token_of(l).len() {
                assert(all[i] == rest.tokens[i - token_of(l).len()]);
            }
        }
    }
}

/// Whether `s` is a name: a letter or an underscore, then letters, digits
/// and underscores, and the whole no reserved word.
pub open spec fn name(s: Seq<char>) -> bool {
    &&& s.len() > 0
    &&& word_start(s[0], class_of(s[0]))
    &&& forall|i: int| 0 < i < s.len() ==> word_char(#[trigger] s[i], class_of(s[i]))
    &&& reserved(s) is None
}

/// Whether a token is as the lexer makes it: a number token holds a
/// numeral, an identifier token a name.
pub open spec fn lexical(kind: TokenTypeView) -> bool {
    match kind {
        TokenTypeView::NUMBER(n) => numeral(n),
        TokenTypeView::IDENTIFIER(w) => name(w),
        _ => true,
    }
}

proof fn lemma_word_run(src: Seq<char>, cls: Seq<CharClass>, pos: int)
    requires
        0 <= pos <= src.len(),
        cls == classes(src),
    ensures
        forall|i: int|
            pos <= i < word_end(src, cls, pos) ==> word_char(#[trigger] src[i], class_of(src[i])),
    decreases src.len() - pos,
{
    if pos < src.len() && word_char(src[pos], cls[pos]) {
        lemma_word_run(src, cls, pos + 1);
    }
}

/// What the lexer reads as a number is a numeral.
proof fn lemma_number(src: Seq<char>, pos: int)
    requires
        0 <= pos < src.len(),
        digit(src[pos]),
    ensures
        pos < number_end(src, pos) <= src.len(),
        numeral(src.subrange(pos, number_end(src, pos))),
{
    lemma_digits_end(src, pos);
    let whole = digits_end(src, pos);
    let e = number_end(src, pos);
    if e == whole {
        lemma_digits_end_within(src, pos, e, pos);
    } else {
        lemma_digits_end(src, whole + 1);
        lemma_digits_end_within(src, pos, e, pos);
        lemma_digits_end_within(src, pos, e, whole + 1);
        assert(src.subrange(pos, e)[whole - pos] == '.');
    }
}

/// The token of a step of the lexer is as the lexer makes tokens.
proof fn lemma_lex_lexical(src: Seq<char>, cls: Seq<CharClass>, pos: int, line: u32)
    requires
        0 <= pos < src.len(),
        cls == classes(src),
    ensures
        match lex(src, cls, pos, line).token {
            Some(kind) => lexical(kind),
            None => true,
        },
{
    let c = src[pos];
    lemma_lex_advances(src, cls, pos, line);
    if digit(c) {
        lemma_number(src, pos);
    } else if word_start(c, cls[pos]) {
        lemma_word_end(src, cls, pos + 1);
        lemma_word_run(src, cls, pos + 1);
        let e = word_end(src, cls, pos + 1);
        let w = src.subrange(pos, e);
        assert(w[0] == c);
        if reserved(w) is None {
            assert(name(w));
        }
    }
}

/// Every token of a text is as the lexer makes tokens: each number token
/// holds a numeral, each identifier token a name.
pub proof fn lemma_tokens_lexical(src: Seq<char>, cls: Seq<CharClass>, pos: int, line: u32)
    requires
        cls == classes(src),
    ensures
        forall|i: int|
            0 <= i < scan_from(src, cls, pos, line).tokens.len() ==> lexical(
                (#[trigger] scan_from(src, cls, pos, line).tokens[i]).kind,
            ),
    decreases src.len() - pos,
{
    if 0 <= pos < src.len() {
        let l = lex(src, cls, pos, line);
        lemma_lex_advances(src, cls, pos, line);
        lemma_lex_lexical(src, cls, pos, line);
        lemma_tokens_lexical(src, cls, l.next, l.line);
        let rest = scan_from(src, cls, l.next, l.line);
        let all = scan_from(src, cls, pos, line);
        assert(all.tokens == token_of(l) + rest.tokens);
        let t = token_of(l).len() as int;
        assert forall|i: int| 0 <= i < all.tokens.len() implies lexical(
            (#[trigger] all.tokens[i]).kind,
        ) by {
            if i >= t {
                assert(all.tokens[i] == rest.tokens[i - t]);
            }
        }
    }
}

proof fn lemma_string_line(src: Seq<char>, pos: int, line: u32, content: Seq<char>)
    ensures
        string_body(src, pos, line, content).line >= line,
    decreases src.len() - pos,
{
    if 0 <= pos < src.len() && src[pos] != '"' {
        if src[pos] == '\n' {
            lemma_string_line(src, pos + 1, next_line(line), content);
        } else {
            lemma_string_line(src, pos + 1, line, content.push(src[pos]));
        }
    }
}

/// Lines only go up: no token and no error of the text from `pos` on
/// stands on a line before `line`, and none on a line before that of a
/// token or an error that comes earlier.
pub proof fn lemma_lines_ascend(src: Seq<char>, cls: Seq<CharClass>, pos: int, line: u32)
    ensures
        forall|i: int|
            0 <= i < scan_from(src, cls, pos, line).tokens.len() ==> (#[trigger] scan_from(src, cls, pos, line).tokens[i]).line >= line,
        forall|i: int, j: int|
            0 <= i <= j < scan_from(src, cls, pos, line).tokens.len() ==> (#[trigger] scan_from(src, cls, pos, line).tokens[i]).line <= (#[trigger] scan_from(src, cls, pos, line).tokens[j]).line,
        forall|i: int|
            0 <= i < scan_from(src, cls, pos, line).errors.len() ==> (#[trigger] scan_from(src, cls, pos, line).errors[i]).line >= line,
        forall|i: int, j: int|
            0 <= i <= j < scan_from(src, cls, pos, line).errors.len() ==> (#[trigger] scan_from(src, cls, pos, line).errors[i]).line <= (#[trigger] scan_from(src, cls, pos, line).errors[j]).line,
    decreases src.len() - pos,
{
    if 0 <= pos < src.len() {
        let l = lex(src, cls, pos, line);
        lemma_lex_advances(src, cls, pos, line);
        lemma_string_line(src, pos + 1, line, Seq::empty());
        assert(l.line >= line);
        lemma_lines_ascend(src, cls, l.next, l.line);
        let rest = scan_from(src, cls, l.next, l.line);
        let all = scan_from(src, cls, pos, line);
        assert(all.tokens == token_of(l) + rest.tokens);
        assert(all.errors == error_of(l) + rest.errors);
        let t = token_of(l).len() as int;
        let e = error_of(l).len() as int;
        assert forall|i: int| 0 <= i < all.tokens.len() implies (#[trigger] all.tokens[i]).line
            >= line && (i >= t ==> all.tokens[i] == rest.tokens[i - t]) && (i < t
            ==> all.tokens[i].line == l.line) by {}
        assert forall|i: int| 0 <= i < all.errors.len() implies (#[trigger] all.errors[i]).line
            >= line && (i >= e ==> all.errors[i] == rest.errors[i - e]) && (i < e
            ==> all.errors[i].line == l.line) by {}
        assert forall|i: int, j: int| 0 <= i <= j < all.tokens.len() implies (
        #[trigger] all.tokens[i]).line <= (#[trigger] all.tokens[j]).line by {
            if i >= t {
                assert(all.tokens[i] == rest.tokens[i - t]);
                assert(all.tokens[j] == rest.tokens[j - t]);
            } else if j >= t {
                assert(all.tokens[j] == rest.tokens[j - t]);
            }
        }
        assert forall|i: int, j: int| 0 <= i <= j < all.errors.len() implies (
        #[trigger] all.errors[i]).line <= (#[trigger] all.errors[j]).line by {
            if i >= e {
                assert(all.errors[i] == rest.errors[i - e]);
                assert(all.errors[j] == rest.errors[j - e]);
            } else if j >= e {
                assert(all.errors[j] == rest.errors[j - e]);
            }
        }
    }
}

/// The executable form of one step of the lexer.
struct Step {
    next: usize,
    line: u32,
    token: Option<TokenType>,
    error: Option<LoxStaticError>,
}

impl Step {
    spec fn models(self, l: Lexed) -> bool {
        &&& self.next == l.next
        &&& self.line == l.line
        &&& match self.token {
            Some(t) => l.token == Some(t@),
            None => l.token is None,
        }
        &&& match self.error {
            Some(e) => error_of(l) == seq![e@],
            None => l.error is None,
        }
    }
}

fn bump(line: u32) -> (r: u32)
    ensures
        r == next_line(line),
{
    if line < u32::MAX {
        line + 1
    } else {
        line
    }
}

fn scan_word(chars: &Vec<char>, classes: &Vec<CharClass>, pos: usize) -> (end: usize)
    requires
        pos <= chars.len(),
        classes.len() == chars.len(),
    ensures
        end == word_end(chars@, classes@, pos as int),
        pos <= end <= chars.len(),
{
    let mut i: usize = pos;
    while i < chars.len() && (classes[i].alphanumeric || chars[i] == '_')
        invariant
            pos <= i <= chars.len(),
            classes.len() == chars.len(),
            word_end(chars@, classes@, pos as int) == word_end(chars@, classes@, i as int),
        decreases chars.len() - i,
    {
        i += 1;
    }
    i
}

fn scan_line(chars: &Vec<char>, pos: usize) -> (end: usize)
    requires
        pos <= chars.len(),
    ensures
        end == line_end(chars@, pos as int),
        pos <= end <= chars.len(),
{
    let mut i: usize = pos;
    while i < chars.len() && chars[i] != '\n'
        invariant
            pos <= i <= chars.len(),
            line_end(chars@, pos as int) == line_end(chars@, i as int),
        decreases chars.len() - i,
    {
        i += 1;
    }
    i
}

fn scan_string(chars: &Vec<char>, pos: usize, line: u32) -> (r: (usize, u32, String, bool))
    requires
        pos <= chars.len(),
    ensures
        pos <= r.0 <= chars.len(),
        string_body(chars@, pos as int, line, Seq::empty()) == (StringBody {
            next: r.0 as int,
            line: r.1,
            content: r.2@,
            closed: r.3,
        }),
{
    let mut i: usize = pos;
    let mut at = line;
    let mut content = String::new();
    while i < chars.len()
        invariant
            pos <= i <= chars.len(),
            string_body(chars@, pos as int, line, Seq::empty()) == string_body(
                chars@,
                i as int,
                at,
                content@,
            ),
        decreases chars.len() - i,
    {
        let c = chars[i];
        if c == '"' {
            return (i + 1, at, content, true);
        } else if c == '\n' {
            at = bump(at);
        } else {
            push_char(&mut content, c);
        }
        i += 1;
    }
    (i, at, content, false)
}

fn one(next: usize, line: u32, kind: TokenType) -> (s: Step)
    ensures
        s.next == next,
        s.line == line,
        s.token == Some(kind),
        s.error is None,
{
    Step { next, line, token: Some(kind), error: None }
}

fn pair(chars: &Vec<char>, pos: usize, line: u32, with: TokenType, without: TokenType) -> (s: Step)
    requires
        pos < chars.len(),
    ensures
        s.models(
            if equal_follows(chars@, pos as int) {
                token(pos + 2, line, with@)
            } else {
                token(pos + 1, line, without@)
            },
        ),
{
    if pos + 1 < chars.len() && chars[pos + 1] == '=' {
        one(pos + 2, line, with)
    } else {
        one(pos + 1, line, without)
    }
}

fn lex_step(chars: &Vec<char>, classes: &Vec<CharClass>, pos: usize, line: u32) -> (s: Step)
    requires
        pos < chars.len(),
        classes.len() == chars.len(),
    ensures
        s.models(lex(chars@, classes@, pos as int, line)),
        pos < s.next <= chars.len(),
{
    proof {
        lemma_lex_advances(chars@, classes@, pos as int, line);
    }
    let c = chars[pos];
    if c == ' ' || c == '\r' || c == '\t' {
        Step { next: pos + 1, line, token: None, error: None }
    } else if c == '\n' {
        Step { next: pos + 1, line: bump(line), token: None, error: None }
    } else if c == '(' {
        one(pos + 1, line, TokenType::LEFT_PAREN)
    } else if c == ')' {
        one(pos + 1, line, TokenType::RIGHT_PAREN)
    } else if c == '{' {
        one(pos + 1, line, TokenType::LEFT_BRACE)
    } else if c == '}' {
        one(pos + 1, line, TokenType::RIGHT_BRACE)
    } else if c == ',' {
        one(pos + 1, line, TokenType::COMMA)
    } else if c == '.' {
        one(pos + 1, line, TokenType::DOT)
    } else if c == '-' {
        one(pos + 1, line, TokenType::MINUS)
    } else if c == '+' {
        one(pos + 1, line, TokenType::PLUS)
    } else if c == ';' {
        one(pos + 1, line, TokenType::SEMICOLON)
    } else if c == '*' {
        one(pos + 1, line, TokenType::STAR)
    } else if c == '!' {
        pair(chars, pos, line, TokenType::BANG_EQUAL, TokenType::BANG)
    } else if c == '=' {
        pair(chars, pos, line, TokenType::EQUAL_EQUAL, TokenType::EQUAL)
    } else if c == '<' {
        pair(chars, pos, line, TokenType::LESS_EQUAL, TokenType::LESS)
    } else if c == '>' {
        pair(chars, pos, line, TokenType::GREATER_EQUAL, TokenType::GREATER)
    } else if c == '/' {
        if pos + 1 < chars.len() && chars[pos + 1] == '/' {
            Step { next: scan_line(chars, pos + 2), line, token: None, error: None }
        } else {
            one(pos + 1, line, TokenType::SLASH)
        }
    } else if c == '"' {
        let (next, line, content, closed) = scan_string(chars, pos + 1, line);
        let error = if closed {
            None
        } else {
            Some(LoxStaticError::new(line, "Unterminated string"))
        };
        Step { next, line, token: Some(TokenType::STRING(content)), error }
    } else if is_digit(c) {
        let whole = digits_until(chars, pos);
        let end = if whole < chars.len() && chars[whole] == '.' && whole + 1 < chars.len() && is_digit(
            chars[whole + 1],
        ) {
            digits_until(chars, whole + 1)
        } else {
            whole
        };
        proof {
            lemma_number(chars@, pos as int);
        }
        one(end, line, TokenType::NUMBER(Numeral::from_chars(chars, pos, end)))
    } else if classes[pos].alphabetic || c == '_' {
        let end = scan_word(chars, classes, pos + 1);
        match keyword(chars, pos, end) {
            Some(kind) => one(end, line, kind),
            None => one(end, line, TokenType::IDENTIFIER(string_of(chars, pos, end))),
        }
    } else {
        Step {
            next: pos + 1,
            line,
            token: None,
            error: Some(LoxStaticError::new(line, "Unexpected character")),
        }
    }
}

/// The lexer on the characters of a text and their classes.
///
/// Scanning never stops early: an unexpected character or an unterminated
/// string is recorded and the scan goes on. The tokens end with exactly
/// one end-of-input token.
pub fn scan_chars(chars: &Vec<char>, classes: &Vec<CharClass>) -> (r: (
    Vec<Token>,
    Vec<LoxStaticError>,
))
    requires
        classes.len() == chars.len(),
    ensures
        token_views(r.0@) == scanned_with(chars@, classes@).tokens,
        error_views(r.1@) == scanned_with(chars@, classes@).errors,
        r.0@.len() > 0,
        r.0@.last()@.kind is EOF,
        forall|i: int| 0 <= i < r.0@.len() - 1 ==> !(#[trigger] r.0@[i]@.kind is EOF),
{
    let mut tokens: Vec<Token> = Vec::new();
    let mut errors: Vec<LoxStaticError> = Vec::new();
    let mut pos: usize = 0;
    let mut line: u32 = 1;
    while pos < chars.len()
        invariant
            pos <= chars.len(),
            classes.len() == chars.len(),
            token_views(tokens@) + scan_from(chars@, classes@, pos as int, line).tokens
                == scanned_with(chars@, classes@).tokens,
            error_views(errors@) + scan_from(chars@, classes@, pos as int, line).errors
                == scanned_with(chars@, classes@).errors,
        decreases chars.len() - pos,
    {
        let ghost l = lex(chars@, classes@, pos as int, line);
        let ghost rest = scan_from(chars@, classes@, l.next, l.line);
        let ghost seen_tokens = token_views(tokens@);
        let ghost seen_errors = error_views(errors@);
        let step = lex_step(chars, classes, pos, line);
        pos = step.next;
        line = step.line;
        if let Some(kind) = step.token {
            tokens.push(Token::new(kind, line));
        }
        if let Some(error) = step.error {
            errors.push(error);
        }
        proof {
            assert(token_views(tokens@) =~= seen_tokens + token_of(l));
            assert(error_views(errors@) =~= seen_errors + error_of(l));
            assert((seen_tokens + token_of(l)) + rest.tokens =~= seen_tokens + (token_of(l)
                + rest.tokens));
            assert((seen_errors + error_of(l)) + rest.errors =~= seen_errors + (error_of(l)
                + rest.errors));
        }
    }
    let ghost seen = token_views(tokens@);
    tokens.push(Token::new(TokenType::EOF, line));
    proof {
        assert(token_views(tokens@) =~= seen + scan_from(
            chars@,
            classes@,
            pos as int,
            line,
        ).tokens);
        assert(error_views(errors@) =~= error_views(errors@) + scan_from(
            chars@,
            classes@,
            pos as int,
            line,
        ).errors);
        lemma_scan_ends_input(chars@, classes@, 0, 1);
        let all = scanned_with(chars@, classes@).tokens;
        assert(tokens@.last()@ == all.last());
        assert forall|i: int| 0 <= i < tokens@.len() - 1 implies !(#[trigger] tokens@[i]@.kind is EOF) by {
            assert(tokens@[i]@ == all[i]);
        }
    }
    (tokens, errors)
}

/// Splits `source` into tokens, and collects the lexical errors.
///
/// The tokens end with exactly one end-of-input token; each number token
/// holds a numeral and each identifier token a name.
pub fn scan(source: String) -> (r: (Vec<Token>, Vec<LoxStaticError>))
    ensures
        token_views(r.0@) == scanned(source@).tokens,
        error_views(r.1@) == scanned(source@).errors,
        r.0@.len() > 0,
        r.0@.last()@.kind is EOF,
        forall|i: int| 0 <= i < r.0@.len() - 1 ==> !(#[trigger] r.0@[i]@.kind is EOF),
        forall|i: int| 0 <= i < r.0@.len() ==> lexical(#[trigger] r.0@[i]@.kind),
{
    let chars = chars_of(source.as_str());
    let classes = classify(&chars);
    let r = scan_chars(&chars, &classes);
    proof {
        lemma_tokens_lexical(chars@, classes@, 0, 1);
        let all = scanned(chars@).tokens;
        assert forall|i: int| 0 <= i < r.0@.len() implies lexical(#[trigger] r.0@[i]@.kind) by {
            assert(r.0@[i]@ == all[i]);
        }
    }
    r
}

} // verus!
