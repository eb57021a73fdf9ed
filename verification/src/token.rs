//! The token vocabulary.
use vstd::prelude::*;
use vstd::std_specs::cmp::PartialEqSpecImpl;
use crate::numeral::Numeral;

verus! {

/// What a token is. Literal tokens carry their content.
#[derive(Debug)]
pub enum TokenType {
    // Single-character tokens.
    LEFT_PAREN,
    RIGHT_PAREN,
    LEFT_BRACE,
    RIGHT_BRACE,
    COMMA,
    DOT,
    MINUS,
    PLUS,
    SEMICOLON,
    SLASH,
    STAR,
    // One or two character tokens.
    BANG,
    BANG_EQUAL,
    EQUAL,
    EQUAL_EQUAL,
    GREATER,
    GREATER_EQUAL,
    LESS,
    LESS_EQUAL,
    // Literals. A number carries its numeral as written.
    IDENTIFIER(String),
    STRING(String),
    NUMBER(Numeral),
    BOOL(bool),
    // Keywords.
    AND,
    CLASS,
    ELSE,
    FUN,
    FOR,
    IF,
    NIL,
    OR,
    PRINT,
    RETURN,
    SUPER,
    THIS,
    VAR,
    WHILE,
    // End of input.
    EOF,
}

/// The model of a [`TokenType`].
pub enum TokenTypeView {
    // Single-character tokens.
    LEFT_PAREN,
    RIGHT_PAREN,
    LEFT_BRACE,
    RIGHT_BRACE,
    COMMA,
    DOT,
    MINUS,
    PLUS,
    SEMICOLON,
    SLASH,
    STAR,
    // One or two character tokens.
    BANG,
    BANG_EQUAL,
    EQUAL,
    EQUAL_EQUAL,
    GREATER,
    GREATER_EQUAL,
    LESS,
    LESS_EQUAL,
    // Literals. A number carries its numeral as written.
    IDENTIFIER(Seq<char>),
    STRING(Seq<char>),
    NUMBER(Seq<char>),
    BOOL(bool),
    // Keywords.
    AND,
    CLASS,
    ELSE,
    FUN,
    FOR,
    IF,
    NIL,
    OR,
    PRINT,
    RETURN,
    SUPER,
    THIS,
    VAR,
    WHILE,
    // End of input.
    EOF,
}

impl View for TokenType {
    type V = TokenTypeView;

    open spec fn view(&self) -> TokenTypeView {
        match self {
            TokenType::LEFT_PAREN => TokenTypeView::LEFT_PAREN,
            TokenType::RIGHT_PAREN => TokenTypeView::RIGHT_PAREN,
            TokenType::LEFT_BRACE => TokenTypeView::LEFT_BRACE,
            TokenType::RIGHT_BRACE => TokenTypeView::RIGHT_BRACE,
            TokenType::COMMA => TokenTypeView::COMMA,
            TokenType::DOT => TokenTypeView::DOT,
            TokenType::MINUS => TokenTypeView::MINUS,
            TokenType::PLUS => TokenTypeView::PLUS,
            TokenType::SEMICOLON => TokenTypeView::SEMICOLON,
            TokenType::SLASH => TokenTypeView::SLASH,
            TokenType::STAR => TokenTypeView::STAR,
            TokenType::BANG => TokenTypeView::BANG,
            TokenType::BANG_EQUAL => TokenTypeView::BANG_EQUAL,
            TokenType::EQUAL => TokenTypeView::EQUAL,
            TokenType::EQUAL_EQUAL => TokenTypeView::EQUAL_EQUAL,
            TokenType::GREATER => TokenTypeView::GREATER,
            TokenType::GREATER_EQUAL => TokenTypeView::GREATER_EQUAL,
            TokenType::LESS => TokenTypeView::LESS,
            TokenType::LESS_EQUAL => TokenTypeView::LESS_EQUAL,
            TokenType::AND => TokenTypeView::AND,
            TokenType::CLASS => TokenTypeView::CLASS,
            TokenType::ELSE => TokenTypeView::ELSE,
            TokenType::FUN => TokenTypeView::FUN,
            TokenType::FOR => TokenTypeView::FOR,
            TokenType::IF => TokenTypeView::IF,
            TokenType::NIL => TokenTypeView::NIL,
            TokenType::OR => TokenTypeView::OR,
            TokenType::PRINT => TokenTypeView::PRINT,
            TokenType::RETURN => TokenTypeView::RETURN,
            TokenType::SUPER => TokenTypeView::SUPER,
            TokenType::THIS => TokenTypeView::THIS,
            TokenType::VAR => TokenTypeView::VAR,
            TokenType::WHILE => TokenTypeView::WHILE,
            TokenType::EOF => TokenTypeView::EOF,
            TokenType::IDENTIFIER(s) => TokenTypeView::IDENTIFIER(s@),
            TokenType::STRING(s) => TokenTypeView::STRING(s@),
            TokenType::NUMBER(s) => TokenTypeView::NUMBER(s@),
            TokenType::BOOL(b) => TokenTypeView::BOOL(*b),
        }
    }
}

impl Clone for TokenType {
    fn clone(&self) -> (r: TokenType)
        ensures
            r@ == self@,
    {
        match self {
            TokenType::LEFT_PAREN => TokenType::LEFT_PAREN,
            TokenType::RIGHT_PAREN => TokenType::RIGHT_PAREN,
            TokenType::LEFT_BRACE => TokenType::LEFT_BRACE,
            TokenType::RIGHT_BRACE => TokenType::RIGHT_BRACE,
            TokenType::COMMA => TokenType::COMMA,
            TokenType::DOT => TokenType::DOT,
            TokenType::MINUS => TokenType::MINUS,
            TokenType::PLUS => TokenType::PLUS,
            TokenType::SEMICOLON => TokenType::SEMICOLON,
            TokenType::SLASH => TokenType::SLASH,
            TokenType::STAR => TokenType::STAR,
            TokenType::BANG => TokenType::BANG,
            TokenType::BANG_EQUAL => TokenType::BANG_EQUAL,
            TokenType::EQUAL => TokenType::EQUAL,
            TokenType::EQUAL_EQUAL => TokenType::EQUAL_EQUAL,
            TokenType::GREATER => TokenType::GREATER,
            TokenType::GREATER_EQUAL => TokenType::GREATER_EQUAL,
            TokenType::LESS => TokenType::LESS,
            TokenType::LESS_EQUAL => TokenType::LESS_EQUAL,
            TokenType::AND => TokenType::AND,
            TokenType::CLASS => TokenType::CLASS,
            TokenType::ELSE => TokenType::ELSE,
            TokenType::FUN => TokenType::FUN,
            TokenType::FOR => TokenType::FOR,
            TokenType::IF => TokenType::IF,
            TokenType::NIL => TokenType::NIL,
            TokenType::OR => TokenType::OR,
            TokenType::PRINT => TokenType::PRINT,
            TokenType::RETURN => TokenType::RETURN,
            TokenType::SUPER => TokenType::SUPER,
            TokenType::THIS => TokenType::THIS,
            TokenType::VAR => TokenType::VAR,
            TokenType::WHILE => TokenType::WHILE,
            TokenType::EOF => TokenType::EOF,
            TokenType::IDENTIFIER(s) => TokenType::IDENTIFIER(s.clone()),
            TokenType::STRING(s) => TokenType::STRING(s.clone()),
            TokenType::NUMBER(s) => TokenType::NUMBER(s.clone()),
            TokenType::BOOL(b) => TokenType::BOOL(*b),
        }
    }
}

impl PartialEq for TokenType {
    fn eq(&self, other: &TokenType) -> (r: bool) {
        match (self, other) {
            (TokenType::LEFT_PAREN, TokenType::LEFT_PAREN) => true,
            (TokenType::RIGHT_PAREN, TokenType::RIGHT_PAREN) => true,
            (TokenType::LEFT_BRACE, TokenType::LEFT_BRACE) => true,
            (TokenType::RIGHT_BRACE, TokenType::RIGHT_BRACE) => true,
            (TokenType::COMMA, TokenType::COMMA) => true,
            (TokenType::DOT, TokenType::DOT) => true,
            (TokenType::MINUS, TokenType::MINUS) => true,
            (TokenType::PLUS, TokenType::PLUS) => true,
            (TokenType::SEMICOLON, TokenType::SEMICOLON) => true,
            (TokenType::SLASH, TokenType::SLASH) => true,
            (TokenType::STAR, TokenType::STAR) => true,
            (TokenType::BANG, TokenType::BANG) => true,
            (TokenType::BANG_EQUAL, TokenType::BANG_EQUAL) => true,
            (TokenType::EQUAL, TokenType::EQUAL) => true,
            (TokenType::EQUAL_EQUAL, TokenType::EQUAL_EQUAL) => true,
            (TokenType::GREATER, TokenType::GREATER) => true,
            (TokenType::GREATER_EQUAL, TokenType::GREATER_EQUAL) => true,
            (TokenType::LESS, TokenType::LESS) => true,
            (TokenType::LESS_EQUAL, TokenType::LESS_EQUAL) => true,
            (TokenType::AND, TokenType::AND) => true,
            (TokenType::CLASS, TokenType::CLASS) => true,
            (TokenType::ELSE, TokenType::ELSE) => true,
            (TokenType::FUN, TokenType::FUN) => true,
            (TokenType::FOR, TokenType::FOR) => true,
            (TokenType::IF, TokenType::IF) => true,
            (TokenType::NIL, TokenType::NIL) => true,
            (TokenType::OR, TokenType::OR) => true,
            (TokenType::PRINT, TokenType::PRINT) => true,
            (TokenType::RETURN, TokenType::RETURN) => true,
            (TokenType::SUPER, TokenType::SUPER) => true,
            (TokenType::THIS, TokenType::THIS) => true,
            (TokenType::VAR, TokenType::VAR) => true,
            (TokenType::WHILE, TokenType::WHILE) => true,
            (TokenType::EOF, TokenType::EOF) => true,
            (TokenType::IDENTIFIER(a), TokenType::IDENTIFIER(b)) => a.eq(b),
            (TokenType::STRING(a), TokenType::STRING(b)) => a.eq(b),
            (TokenType::NUMBER(a), TokenType::NUMBER(b)) => a.eq(b),
            (TokenType::BOOL(a), TokenType::BOOL(b)) => *a == *b,
            _ => false,
        }
    }
}

impl PartialEqSpecImpl for TokenType {
    open spec fn obeys_eq_spec() -> bool {
        true
    }

    open spec fn eq_spec(&self, other: &TokenType) -> bool {
        self@ == other@
    }
}

/// A token: what it is, and the line it was read on.
#[derive(Debug)]
pub struct Token {
    pub tokenType: TokenType,
    pub line: u32,
}

/// The model of a [`Token`].
pub struct TokenView {
    pub kind: TokenTypeView,
    pub line: u32,
}

impl View for Token {
    type V = TokenView;

    open spec fn view(&self) -> TokenView {
        TokenView { kind: self.tokenType@, line: self.line }
    }
}

/// The views of a list of tokens, in order.
pub open spec fn token_views(tokens: Seq<Token>) -> Seq<TokenView> {
    tokens.map_values(|t: Token| t@)
}

impl Token {
    pub fn new(tokenType: TokenType, line: u32) -> (t: Token)
        ensures
            t.tokenType == tokenType,
            t.line == line,
    {
        Token { tokenType, line }
    }
}

/// The reserved words: the token that a word stands for, if it is reserved.
/// `true` and `false` are reserved as the two boolean literals.
pub open spec fn reserved(word: Seq<char>) -> Option<TokenTypeView> {
    if word == "and"@ {
        Some(TokenTypeView::AND)
    }     else if word == "class"@ {
        Some(TokenTypeView::CLASS)
    }     else if word == "else"@ {
        Some(TokenTypeView::ELSE)
    }     else if word == "false"@ {
        Some(TokenTypeView::BOOL(false))
    }     else if word == "for"@ {
        Some(TokenTypeView::FOR)
    }     else if word == "fun"@ {
        Some(TokenTypeView::FUN)
    }     else if word == "if"@ {
        Some(TokenTypeView::IF)
    }     else if word == "nil"@ {
        Some(TokenTypeView::NIL)
    }     else if word == "or"@ {
        Some(TokenTypeView::OR)
    }     else if word == "print"@ {
        Some(TokenTypeView::PRINT)
    }     else if word == "return"@ {
        Some(TokenTypeView::RETURN)
    }     else if word == "super"@ {
        Some(TokenTypeView::SUPER)
    }     else if word == "this"@ {
        Some(TokenTypeView::THIS)
    }     else if word == "true"@ {
        Some(TokenTypeView::BOOL(true))
    }     else if word == "var"@ {
        Some(TokenTypeView::VAR)
    }     else if word == "while"@ {
        Some(TokenTypeView::WHILE)
    } else {
        None
    }
}

/// Whether the characters `chars[from..to]` spell `word`.
fn spells(chars: &Vec<char>, from: usize, to: usize, word: &str) -> (r: bool)
    requires
        from <= to <= chars.len(),
    ensures
        r == (chars@.subrange(from as int, to as int) == word@),
{
    let n = word.unicode_len();
    if to - from != n {
        return false;
    }
    let mut i: usize = 0;
    while i < n
        invariant
            from <= to <= chars.len(),
            n == to - from,
            n == word@.len(),
            i <= n,
            forall|j: int| 0 <= j < i ==> chars@[from + j] == word@[j],
        decreases n - i,
    {
        if chars[from + i] != word.get_char(i) {
            assert(chars@.subrange(from as int, to as int)[i as int] != word@[i as int]);
            return false;
        }
        i += 1;
    }
    assert(chars@.subrange(from as int, to as int) =~= word@);
    true
}

/// Looks the word `chars[from..to]` up among the reserved words.
pub fn keyword(chars: &Vec<char>, from: usize, to: usize) -> (r: Option<TokenType>)
    requires
        from <= to <= chars.len(),
    ensures
        match r {
            Some(t) => reserved(chars@.subrange(from as int, to as int)) == Some(t@),
            None => reserved(chars@.subrange(from as int, to as int)) is None,
        },
{
    if spells(chars, from, to, "and") {
        Some(TokenType::AND)
    }     else if spells(chars, from, to, "class") {
        Some(TokenType::CLASS)
    }     else if spells(chars, from, to, "else") {
        Some(TokenType::ELSE)
    }     else if spells(chars, from, to, "false") {
        Some(TokenType::BOOL(false))
    }     else if spells(chars, from, to, "for") {
        Some(TokenType::FOR)
    }     else if spells(chars, from, to, "fun") {
        Some(TokenType::FUN)
    }     else if spells(chars, from, to, "if") {
        Some(TokenType::IF)
    }     else if spells(chars, from, to, "nil") {
        Some(TokenType::NIL)
    }     else if spells(chars, from, to, "or") {
        Some(TokenType::OR)
    }     else if spells(chars, from, to, "print") {
        Some(TokenType::PRINT)
    }     else if spells(chars, from, to, "return") {
        Some(TokenType::RETURN)
    }     else if spells(chars, from, to, "super") {
        Some(TokenType::SUPER)
    }     else if spells(chars, from, to, "this") {
        Some(TokenType::THIS)
    }     else if spells(chars, from, to, "true") {
        Some(TokenType::BOOL(true))
    }     else if spells(chars, from, to, "var") {
        Some(TokenType::VAR)
    }     else if spells(chars, from, to, "while") {
        Some(TokenType::WHILE)
    } else {
        None
    }
}

} // verus!
