//! The grammar, as a model: what the parser makes of a token sequence.
//!
//! Each function reads from a [`ParseState`] and gives what it built with
//! the state it left. Precedence rises from assignment through `or`, `and`,
//! equality, comparison, term and factor to unary, call and primary.
//!
//! An error is recorded and followed at once by synchronisation: tokens are
//! skipped up to the next statement boundary. From there to the end of the
//! statement that held the error the parser is in panic: it reads nothing
//! and records nothing, so that one broken statement gives one error and
//! costs the next statement no token.
//!
//! The functions are defined for every state, also for one that stands
//! past the tokens. That they end rests on the position never going back;
//! where a function reads on from where another one left, it tests that,
//! and gives up if the test fails. On tokens that end with the end of
//! input it never fails: the parser proves with each result that it has
//! not gone back.
use vstd::prelude::*;
use crate::expr::{Boperator, ExprKind, ExprView, LiteralView, Loperator};
use crate::expr::from_token::{literal, unary_operator};
use crate::expr::stmt::{DeclView, StmtView};
use crate::static_error::StaticErrorView;
use crate::token::{TokenTypeView, TokenView};

verus! {

/// Where the parser stands, the errors recorded so far, and whether the
/// parser is in panic.
pub struct ParseState {
    pub pos: int,
    pub errors: Seq<StaticErrorView>,
    pub panic: bool,
}

/// What a parsing function built, and the state it left.
pub struct Parsed<T> {
    pub value: T,
    pub state: ParseState,
}

/// The kind of the token at `pos`; past the tokens, the end of input.
pub open spec fn token_at(toks: Seq<TokenView>, pos: int) -> TokenTypeView {
    if 0 <= pos < toks.len() {
        toks[pos].kind
    } else {
        TokenTypeView::EOF
    }
}

/// The kind of the current token, as the parser sees it: in panic it sees
/// the end of input.
pub open spec fn kind_at(toks: Seq<TokenView>, s: ParseState) -> TokenTypeView {
    if s.panic {
        TokenTypeView::EOF
    } else {
        token_at(toks, s.pos)
    }
}

/// The line of the current token.
pub open spec fn line_at(toks: Seq<TokenView>, s: ParseState) -> u32 {
    toks[s.pos].line
}

/// Whether the parser sees the end of input.
pub open spec fn at_end(toks: Seq<TokenView>, s: ParseState) -> bool {
    kind_at(toks, s) is EOF
}

/// The number of tokens from the current one on.
pub open spec fn left(toks: Seq<TokenView>, s: ParseState) -> nat {
    if s.pos <= toks.len() {
        (toks.len() - s.pos) as nat
    } else {
        0
    }
}

/// The state after passing over one token.
pub open spec fn advance(s: ParseState) -> ParseState {
    ParseState { pos: s.pos + 1, errors: s.errors, panic: s.panic }
}

/// The state with an error more, unless the parser is in panic.
pub open spec fn record(s: ParseState, line: u32, message: Seq<char>) -> ParseState {
    if s.panic {
        s
    } else {
        ParseState {
            pos: s.pos,
            errors: s.errors.push(StaticErrorView { line, message }),
            panic: false,
        }
    }
}

/// The state without panic: a new statement can be read.
pub open spec fn calm(s: ParseState) -> ParseState {
    ParseState { pos: s.pos, errors: s.errors, panic: false }
}

/// Whether a token of this kind starts a statement or a declaration.
pub open spec fn starts_statement(k: TokenTypeView) -> bool {
    k is CLASS || k is FUN || k is VAR || k is FOR || k is IF || k is WHILE || k is PRINT
        || k is RETURN
}

/// The first position from `pos` on that is a statement boundary: the end
/// of input, the token after a semicolon, or the start of a statement.
pub open spec fn boundary(toks: Seq<TokenView>, pos: int) -> int
    decreases toks.len() - pos,
{
    if pos < 1 || pos >= toks.len() || toks[pos].kind is EOF {
        pos
    } else if toks[pos - 1].kind is SEMICOLON || starts_statement(toks[pos].kind) {
        pos
    } else {
        boundary(toks, pos + 1)
    }
}

/// Skips the current token, then on to the next statement boundary, and
/// puts the parser in panic.
pub open spec fn synch(toks: Seq<TokenView>, s: ParseState) -> ParseState {
    ParseState {
        pos: if token_at(toks, s.pos) is EOF {
            s.pos
        } else {
            boundary(toks, s.pos + 1)
        },
        errors: s.errors,
        panic: true,
    }
}

/// Records `message` on the current token's line, then synchronises. In
/// panic nothing happens.
pub open spec fn error(toks: Seq<TokenView>, s: ParseState, message: Seq<char>) -> ParseState {
    if s.panic {
        s
    } else {
        synch(toks, record(s, line_at(toks, s), message))
    }
}

/// Expects a token of kind `k`, which is not the end of input, and passes
/// over it. A different token is an error.
pub open spec fn consume(toks: Seq<TokenView>, s: ParseState, k: TokenTypeView, message: Seq<char>) -> ParseState {
    if kind_at(toks, s) == k {
        advance(s)
    } else {
        error(toks, s, message)
    }
}

/// Expects an identifier and gives its name; anything else is an error and
/// gives the empty name.
pub open spec fn id_consume(toks: Seq<TokenView>, s: ParseState, message: Seq<char>) -> Parsed<Seq<char>> {
    match kind_at(toks, s) {
        TokenTypeView::IDENTIFIER(n) => Parsed { value: n, state: advance(s) },
        _ => Parsed { value: Seq::empty(), state: error(toks, s, message) },
    }
}

/// The literal `nil` on a line.
pub open spec fn nil(line: u32) -> ExprView {
    ExprView { kind: ExprKind::Literal(LiteralView::Nil), line }
}

/// An operator that stands between its operands.
#[derive(Clone, Copy)]
pub enum Infix {
    Logical(Loperator),
    Binary(Boperator),
}

/// The number of precedence levels of infix operators. Level 0 binds
/// loosest: `or`, then `and`, equality, comparison, term, and factor.
pub open spec fn infix_levels() -> int {
    6
}

/// The operator that a token writes at a precedence level, if any.
pub open spec fn infix_at(level: int, k: TokenTypeView) -> Option<Infix> {
    if level == 0 {
        match k {
            TokenTypeView::OR => Some(Infix::Logical(Loperator::Or)),
            _ => None,
        }
    } else if level == 1 {
        match k {
            TokenTypeView::AND => Some(Infix::Logical(Loperator::And)),
            _ => None,
        }
    } else if level == 2 {
        match k {
            TokenTypeView::BANG_EQUAL => Some(Infix::Binary(Boperator::BangEqual)),
            TokenTypeView::EQUAL_EQUAL => Some(Infix::Binary(Boperator::EqualEqual)),
            _ => None,
        }
    } else if level == 3 {
        match k {
            TokenTypeView::GREATER => Some(Infix::Binary(Boperator::Greater)),
            TokenTypeView::GREATER_EQUAL => Some(Infix::Binary(Boperator::GreaterEqual)),
            TokenTypeView::LESS => Some(Infix::Binary(Boperator::Less)),
            TokenTypeView::LESS_EQUAL => Some(Infix::Binary(Boperator::LessEqual)),
            _ => None,
        }
    } else if level == 4 {
        match k {
            TokenTypeView::MINUS => Some(Infix::Binary(Boperator::Minus)),
            TokenTypeView::PLUS => Some(Infix::Binary(Boperator::Plus)),
            _ => None,
        }
    } else if level == 5 {
        match k {
            TokenTypeView::SLASH => Some(Infix::Binary(Boperator::Slash)),
            TokenTypeView::STAR => Some(Infix::Binary(Boperator::Star)),
            _ => None,
        }
    } else {
        None
    }
}

/// The node that joins two operands by an infix operator.
pub open spec fn infix_node(op: Infix, l: ExprView, r: ExprView, line: u32) -> ExprView {
    ExprView {
        kind: match op {
            Infix::Logical(o) => ExprKind::Logical(o, Box::new(l), Box::new(r)),
            Infix::Binary(o) => ExprKind::Binary(o, Box::new(l), Box::new(r)),
        },
        line,
    }
}

/// `expression -> assignment`
pub open spec fn expression(toks: Seq<TokenView>, s: ParseState) -> Parsed<ExprView>
    decreases left(toks, s), 24int,
{
    assignment(toks, s)
}

/// `assignment -> or ( "=" assignment )?`, right-associative. Only a bare
/// variable can be assigned to.
pub open spec fn assignment(toks: Seq<TokenView>, s: ParseState) -> Parsed<ExprView>
    decreases left(toks, s), 23int,
{
    let r = infix(toks, s, 0);
    if r.state.pos < s.pos {
        r
    } else {
        assignment_rest(toks, r.state, r.value)
    }
}

/// What follows the left side of an assignment, `target`.
pub open spec fn assignment_rest(toks: Seq<TokenView>, s: ParseState, target: ExprView) -> Parsed<ExprView>
    decreases left(toks, s), 22int,
{
    if kind_at(toks, s) is EQUAL {
        let r = assignment(toks, advance(s));
        match target.kind {
            ExprKind::Variable(n) => Parsed {
                value: ExprView { kind: ExprKind::Assignment(n, Box::new(r.value)), line: line_at(toks, s) },
                state: r.state,
            },
            _ => {
                let s1 = record(r.state, line_at(toks, s), "Invalid assignment target"@);
                if s1.pos <= s.pos {
                    Parsed { value: target, state: s1 }
                } else {
                    assignment_rest(toks, s1, target)
                }
            },
        }
    } else {
        Parsed { value: target, state: s }
    }
}

/// The place of a precedence level among the grammar's rules.
pub open spec fn level_rank(level: int) -> int {
    if 0 <= level < infix_levels() {
        21 - 2 * level
    } else {
        9
    }
}

/// One precedence level of infix operators, left-associative: an operand
/// of the next level, then any number of operators of this level, each
/// with an operand of the next level. Past the last level stand the unary
/// expressions.
pub open spec fn infix(toks: Seq<TokenView>, s: ParseState, level: int) -> Parsed<ExprView>
    decreases left(toks, s), level_rank(level),
{
    if level < 0 || level >= infix_levels() {
        unary(toks, s)
    } else {
        let r = infix(toks, s, level + 1);
        if r.state.pos < s.pos {
            r
        } else {
            infix_rest(toks, r.state, level, r.value)
        }
    }
}

/// The operators of a level and their right operands, after the left
/// operand `l`.
pub open spec fn infix_rest(toks: Seq<TokenView>, s: ParseState, level: int, l: ExprView) -> Parsed<ExprView>
    decreases left(toks, s), level_rank(level) - 1,
{
    if level < 0 || level >= infix_levels() {
        Parsed { value: l, state: s }
    } else {
        match infix_at(level, kind_at(toks, s)) {
            Some(op) => {
                let r = infix(toks, advance(s), level + 1);
                let node = infix_node(op, l, r.value, line_at(toks, s));
                if r.state.pos <= s.pos {
                    Parsed { value: node, state: r.state }
                } else {
                    infix_rest(toks, r.state, level, node)
                }
            },
            None => Parsed { value: l, state: s },
        }
    }
}

/// `unary -> ( "!" | "-" ) unary | call`
pub open spec fn unary(toks: Seq<TokenView>, s: ParseState) -> Parsed<ExprView>
    decreases left(toks, s), 8int,
{
    match unary_operator(kind_at(toks, s)) {
        Some(op) => {
            let r = unary(toks, advance(s));
            Parsed {
                value: ExprView { kind: ExprKind::Unary(op, Box::new(r.value)), line: line_at(toks, s) },
                state: r.state,
            }
        },
        None => call(toks, s),
    }
}

/// `call -> primary ( "(" arguments? ")" )*`
pub open spec fn call(toks: Seq<TokenView>, s: ParseState) -> Parsed<ExprView>
    decreases left(toks, s), 7int,
{
    let r = primary(toks, s);
    if r.state.pos < s.pos {
        r
    } else {
        call_rest(toks, r.state, r.value)
    }
}

/// The argument lists that follow a callee.
pub open spec fn call_rest(toks: Seq<TokenView>, s: ParseState, callee: ExprView) -> Parsed<ExprView>
    decreases left(toks, s), 6int,
{
    if kind_at(toks, s) is LEFT_PAREN {
        let r = finish_call(toks, advance(s), callee);
        if r.state.pos <= s.pos {
            r
        } else {
            call_rest(toks, r.state, r.value)
        }
    } else {
        Parsed { value: callee, state: s }
    }
}

/// The largest number of arguments or parameters that is no error.
pub open spec fn arity_limit() -> nat {
    255
}

/// The arguments of a call and its closing parenthesis. The call stands
/// on the line of the token that closes it.
pub open spec fn finish_call(toks: Seq<TokenView>, s: ParseState, callee: ExprView) -> Parsed<ExprView>
    decreases left(toks, s), 32int,
{
    let args = if kind_at(toks, s) is RIGHT_PAREN {
        Parsed { value: Seq::<ExprView>::empty(), state: s }
    } else {
        let first = expression(toks, s);
        if first.state.pos < s.pos {
            Parsed { value: seq![first.value], state: first.state }
        } else {
            arguments_rest(toks, first.state, seq![first.value])
        }
    };
    Parsed {
        value: ExprView {
            kind: ExprKind::Call(Box::new(callee), args.value),
            line: line_at(toks, args.state),
        },
        state: consume(toks, args.state, TokenTypeView::RIGHT_PAREN, "Expected \")\" after argument"@),
    }
}

/// The arguments after the first, each after a comma. An argument past the
/// limit is recorded as an error on its line, and is read and kept like
/// the others.
pub open spec fn arguments_rest(toks: Seq<TokenView>, s: ParseState, args: Seq<ExprView>) -> Parsed<Seq<ExprView>>
    decreases left(toks, s), 31int,
{
    if kind_at(toks, s) is COMMA {
        let s1 = if args.len() >= arity_limit() {
            record(advance(s), line_at(toks, advance(s)), "Can't have more than 255 arguments"@)
        } else {
            advance(s)
        };
        if s1.pos <= s.pos {
            Parsed { value: args, state: s1 }
        } else {
            let r = expression(toks, s1);
            if r.state.pos <= s.pos {
                Parsed { value: args.push(r.value), state: r.state }
            } else {
                arguments_rest(toks, r.state, args.push(r.value))
            }
        }
    } else {
        Parsed { value: args, state: s }
    }
}

/// `primary -> literal | "(" expression ")" | identifier`. Anything else is
/// an error, and stands for `nil`.
pub open spec fn primary(toks: Seq<TokenView>, s: ParseState) -> Parsed<ExprView>
    decreases left(toks, s), 5int,
{
    let line = line_at(toks, s);
    match literal(kind_at(toks, s)) {
        Some(l) => Parsed { value: ExprView { kind: ExprKind::Literal(l), line }, state: advance(s) },
        None => match kind_at(toks, s) {
            TokenTypeView::LEFT_PAREN => {
                let r = expression(toks, advance(s));
                Parsed {
                    value: ExprView { kind: ExprKind::Grouping(Box::new(r.value)), line },
                    state: consume(toks, r.state, TokenTypeView::RIGHT_PAREN, "Expected \")\""@),
                }
            },
            TokenTypeView::IDENTIFIER(n) => Parsed {
                value: ExprView { kind: ExprKind::Variable(n), line },
                state: advance(s),
            },
            _ => Parsed { value: nil(line), state: error(toks, s, "Expected expression"@) },
        },
    }
}

/// `declaration -> "var" varDeclaration | "fun" funDeclaration | statement`
pub open spec fn declaration(toks: Seq<TokenView>, s: ParseState) -> Parsed<DeclView>
    decreases left(toks, s), 27int,
{
    match kind_at(toks, s) {
        TokenTypeView::VAR => var_declaration(toks, advance(s)),
        TokenTypeView::FUN => fun_declaration(toks, advance(s)),
        _ => {
            let r = statement(toks, s);
            Parsed { value: DeclView::Stmt(r.value), state: r.state }
        },
    }
}

/// The rest of a variable declaration: a name, an optional initialiser,
/// and a semicolon. Without an initialiser the variable starts as `nil`.
pub open spec fn var_declaration(toks: Seq<TokenView>, s: ParseState) -> Parsed<DeclView>
    decreases left(toks, s), 30int,
{
    let name = id_consume(toks, s, "Expected variable name"@);
    let s1 = name.state;
    let init = if kind_at(toks, s1) is EQUAL && s1.pos >= s.pos {
        expression(toks, advance(s1))
    } else {
        Parsed { value: nil(line_at(toks, s1)), state: s1 }
    };
    Parsed {
        value: DeclView::VarDecl(name.value, init.value),
        state: consume(
            toks,
            init.state,
            TokenTypeView::SEMICOLON,
            "Expected \";\" after variable declaration"@,
        ),
    }
}

/// The rest of a function declaration: a name, the parameters in
/// parentheses, and the body in braces.
pub open spec fn fun_declaration(toks: Seq<TokenView>, s: ParseState) -> Parsed<DeclView>
    decreases left(toks, s), 30int,
{
    let name = id_consume(toks, s, "Expected function name"@);
    let s1 = consume(toks, name.state, TokenTypeView::LEFT_PAREN, "Expected \"(\" after function name"@);
    let params = if kind_at(toks, s1) is RIGHT_PAREN {
        Parsed { value: Seq::<Seq<char>>::empty(), state: s1 }
    } else {
        parameters(toks, s1, Seq::empty())
    };
    let s2 = consume(toks, params.state, TokenTypeView::RIGHT_PAREN, "Expected \")\" after parameters"@);
    let s3 = consume(toks, s2, TokenTypeView::LEFT_BRACE, "Expected \"{\" before function body"@);
    if s3.pos < s.pos {
        Parsed { value: DeclView::FunDecl(name.value, params.value, Seq::empty()), state: s3 }
    } else {
        let body = block(toks, s3, Seq::empty());
        Parsed { value: DeclView::FunDecl(name.value, params.value, body.value), state: body.state }
    }
}

/// The parameter names, separated by commas. A parameter past the limit
/// is recorded as an error on its line, and is read and kept like the
/// others.
pub open spec fn parameters(toks: Seq<TokenView>, s: ParseState, names: Seq<Seq<char>>) -> Parsed<Seq<Seq<char>>>
    decreases left(toks, s),
{
    let s1 = if names.len() >= arity_limit() {
        record(s, line_at(toks, s), "Can't have more than 255 parameters"@)
    } else {
        s
    };
    let name = id_consume(toks, s1, "Expected parameter name"@);
    let s2 = name.state;
    if kind_at(toks, s2) is COMMA && s2.pos >= s.pos {
        parameters(toks, advance(s2), names.push(name.value))
    } else {
        Parsed { value: names.push(name.value), state: s2 }
    }
}

/// The declarations of a block up to its closing brace, after `items`.
/// After each declaration the panic is over. A block that runs into the
/// end of input is an error, recorded on the line of the last token,
/// unless that token is itself a closing brace.
pub open spec fn block(toks: Seq<TokenView>, s: ParseState, items: Seq<DeclView>) -> Parsed<Seq<DeclView>>
    decreases left(toks, s), 29int,
{
    if kind_at(toks, s) is RIGHT_BRACE {
        Parsed { value: items, state: advance(s) }
    } else if at_end(toks, s) {
        Parsed {
            value: items,
            state: if toks[s.pos - 1].kind is RIGHT_BRACE {
                s
            } else {
                record(s, toks[s.pos - 1].line, "Expected \"}\" after block"@)
            },
        }
    } else {
        let r = declaration(toks, s);
        if r.state.pos <= s.pos {
            Parsed { value: items.push(r.value), state: r.state }
        } else {
            block(toks, calm(r.state), items.push(r.value))
        }
    }
}

/// A statement, told by its first token.
pub open spec fn statement(toks: Seq<TokenView>, s: ParseState) -> Parsed<StmtView>
    decreases left(toks, s), 26int,
{
    match kind_at(toks, s) {
        TokenTypeView::IF => if_statement(toks, advance(s)),
        TokenTypeView::PRINT => print_statement(toks, advance(s)),
        TokenTypeView::LEFT_BRACE => {
            let r = block(toks, advance(s), Seq::empty());
            Parsed { value: StmtView::Block(r.value), state: r.state }
        },
        TokenTypeView::WHILE => while_statement(toks, advance(s)),
        TokenTypeView::FOR => for_statement(toks, advance(s)),
        TokenTypeView::RETURN => return_statement(toks, advance(s)),
        _ => expression_statement(toks, s),
    }
}

/// `exprStmt -> expression ";"`
pub open spec fn expression_statement(toks: Seq<TokenView>, s: ParseState) -> Parsed<StmtView>
    decreases left(toks, s), 25int,
{
    let r = expression(toks, s);
    Parsed {
        value: StmtView::ExprStmt(r.value),
        state: consume(toks, r.state, TokenTypeView::SEMICOLON, "Expected \";\" after value"@),
    }
}

/// The rest of a print statement: `expression ";"`
pub open spec fn print_statement(toks: Seq<TokenView>, s: ParseState) -> Parsed<StmtView>
    decreases left(toks, s), 28int,
{
    let r = expression(toks, s);
    Parsed {
        value: StmtView::PrintStmt(r.value),
        state: consume(toks, r.state, TokenTypeView::SEMICOLON, "Expected \";\" after value"@),
    }
}

/// The rest of a return statement. Without a value it returns `nil`.
pub open spec fn return_statement(toks: Seq<TokenView>, s: ParseState) -> Parsed<StmtView>
    decreases left(toks, s), 28int,
{
    if kind_at(toks, s) is SEMICOLON {
        Parsed { value: StmtView::ReturnStmt(nil(line_at(toks, s))), state: advance(s) }
    } else {
        let r = expression(toks, s);
        Parsed {
            value: StmtView::ReturnStmt(r.value),
            state: consume(toks, r.state, TokenTypeView::SEMICOLON, "Expected \";\" after return value"@),
        }
    }
}

/// The rest of a while statement: `"(" expression ")" statement`
pub open spec fn while_statement(toks: Seq<TokenView>, s: ParseState) -> Parsed<StmtView>
    decreases left(toks, s), 28int,
{
    let s1 = consume(toks, s, TokenTypeView::LEFT_PAREN, "Expected \"(\" after \"while\""@);
    if s1.pos < s.pos {
        Parsed { value: StmtView::Block(Seq::empty()), state: s1 }
    } else {
        let c = expression(toks, s1);
        let s2 = consume(toks, c.state, TokenTypeView::RIGHT_PAREN, "Expected \")\" after while condition"@);
        if s2.pos < s.pos {
            Parsed { value: StmtView::Block(Seq::empty()), state: s2 }
        } else {
            let b = statement(toks, s2);
            Parsed { value: StmtView::WhileStmt(c.value, Box::new(b.value)), state: b.state }
        }
    }
}

/// The rest of an if statement:
/// `"(" expression ")" statement ( "else" statement )?`
pub open spec fn if_statement(toks: Seq<TokenView>, s: ParseState) -> Parsed<StmtView>
    decreases left(toks, s), 28int,
{
    let s1 = consume(toks, s, TokenTypeView::LEFT_PAREN, "Expected \"(\" after \"if\""@);
    if s1.pos < s.pos {
        Parsed { value: StmtView::Block(Seq::empty()), state: s1 }
    } else {
        let c = expression(toks, s1);
        let s2 = consume(toks, c.state, TokenTypeView::RIGHT_PAREN, "Expected \")\" after if condition"@);
        if s2.pos < s.pos {
            Parsed { value: StmtView::Block(Seq::empty()), state: s2 }
        } else {
            let t = statement(toks, s2);
            if kind_at(toks, t.state) is ELSE && t.state.pos >= s.pos {
                let e = statement(toks, advance(t.state));
                Parsed {
                    value: StmtView::IfStmt(c.value, Box::new(t.value), Some(Box::new(e.value))),
                    state: e.state,
                }
            } else {
                Parsed { value: StmtView::IfStmt(c.value, Box::new(t.value), None), state: t.state }
            }
        }
    }
}

/// The loop that a `for` statement stands for: a `while` over the
/// condition, or over `true` where there is none; the increment, if any,
/// after the body in a block of the two; and the initialiser, if any,
/// before the loop in a block of the two.
pub open spec fn for_loop(
    init: Option<DeclView>,
    cond: Option<ExprView>,
    cond_line: u32,
    incr: Option<ExprView>,
    body: StmtView,
) -> StmtView {
    let stepped = match incr {
        Some(i) => StmtView::Block(seq![DeclView::Stmt(body), DeclView::Stmt(StmtView::ExprStmt(i))]),
        None => body,
    };
    let tested = match cond {
        Some(c) => c,
        None => ExprView { kind: ExprKind::Literal(LiteralView::Bool(true)), line: cond_line },
    };
    let repeated = StmtView::WhileStmt(tested, Box::new(stepped));
    match init {
        Some(d) => StmtView::Block(seq![d, DeclView::Stmt(repeated)]),
        None => repeated,
    }
}

/// The first clause of a `for`: nothing but a semicolon, a variable
/// declaration, or an expression statement.
pub open spec fn for_initialiser(toks: Seq<TokenView>, s: ParseState) -> Parsed<Option<DeclView>>
    decreases left(toks, s), 27int,
{
    match kind_at(toks, s) {
        TokenTypeView::SEMICOLON => Parsed { value: None, state: advance(s) },
        TokenTypeView::VAR => {
            let d = var_declaration(toks, advance(s));
            Parsed { value: Some(d.value), state: d.state }
        },
        _ => {
            let e = expression_statement(toks, s);
            Parsed { value: Some(DeclView::Stmt(e.value)), state: e.state }
        },
    }
}

/// An expression, unless the current token is of kind `closing`.
pub open spec fn for_clause(toks: Seq<TokenView>, s: ParseState, closing: TokenTypeView) -> Parsed<Option<ExprView>>
    decreases left(toks, s), 27int,
{
    if kind_at(toks, s) != closing {
        let e = expression(toks, s);
        Parsed { value: Some(e.value), state: e.state }
    } else {
        Parsed { value: None, state: s }
    }
}

/// The rest of a `for` statement: the three clauses in parentheses and the
/// body, made into the loop they stand for.
pub open spec fn for_statement(toks: Seq<TokenView>, s: ParseState) -> Parsed<StmtView>
    decreases left(toks, s), 28int,
{
    let s1 = consume(toks, s, TokenTypeView::LEFT_PAREN, "Expected \"(\" after \"for\""@);
    if s1.pos < s.pos {
        Parsed { value: StmtView::Block(Seq::empty()), state: s1 }
    } else {
        let init = for_initialiser(toks, s1);
        if init.state.pos < s.pos {
            Parsed { value: StmtView::Block(Seq::empty()), state: init.state }
        } else {
            let cond_line = line_at(toks, init.state);
            let cond = for_clause(toks, init.state, TokenTypeView::SEMICOLON);
            let s2 = consume(toks, cond.state, TokenTypeView::SEMICOLON, "Expected \";\" after loop condition"@);
            if s2.pos < s.pos {
                Parsed { value: StmtView::Block(Seq::empty()), state: s2 }
            } else {
                let incr = for_clause(toks, s2, TokenTypeView::RIGHT_PAREN);
                let s3 = consume(toks, incr.state, TokenTypeView::RIGHT_PAREN, "Expected \")\" after for clauses"@);
                if s3.pos < s.pos {
                    Parsed { value: StmtView::Block(Seq::empty()), state: s3 }
                } else {
                    let body = statement(toks, s3);
                    Parsed {
                        value: for_loop(init.value, cond.value, cond_line, incr.value, body.value),
                        state: body.state,
                    }
                }
            }
        }
    }
}

/// The declarations of a program from `s` to the end of input, after
/// `items`, with the errors recorded on the way. After each declaration
/// the panic is over.
pub open spec fn program(toks: Seq<TokenView>, s: ParseState, items: Seq<DeclView>) -> Parsed<Seq<DeclView>>
    decreases left(toks, s),
{
    if at_end(toks, s) {
        Parsed { value: items, state: s }
    } else {
        let r = declaration(toks, s);
        if r.state.pos <= s.pos {
            Parsed { value: items.push(r.value), state: r.state }
        } else {
            program(toks, calm(r.state), items.push(r.value))
        }
    }
}

/// In panic an infix level reads nothing and records nothing.
proof fn lemma_infix_inert(toks: Seq<TokenView>, s: ParseState, level: int)
    requires
        s.panic,
    ensures
        infix(toks, s, level).state == s,
    decreases level_rank(level),
{
    assert(unary(toks, s).state == s) by {
        assert(primary(toks, s).state == s);
        assert(call(toks, s).state == s);
    }
    if 0 <= level < infix_levels() {
        lemma_infix_inert(toks, s, level + 1);
        let r = infix(toks, s, level + 1);
        assert(kind_at(toks, s) is EOF);
        assert(infix_at(level, kind_at(toks, s)) is None);
        assert(infix_rest(toks, s, level, r.value).state == s);
    }
}

/// In panic the parser is inert: whatever it is asked to read, it reads
/// no token and records no error. So after the error that put it in panic
/// its statement gets no error more, and the tokens from the statement
/// boundary on are left for the next statement.
pub proof fn lemma_panic_is_inert(toks: Seq<TokenView>, s: ParseState)
    requires
        s.panic,
    ensures
        expression(toks, s).state == s,
        statement(toks, s).state == s,
        declaration(toks, s).state == s,
        block(toks, s, Seq::empty()).state == s,
        forall|k: TokenTypeView, message: Seq<char>|
            !(k is EOF) ==> #[trigger] consume(toks, s, k, message) == s,
        forall|message: Seq<char>| #[trigger] error(toks, s, message) == s,
{
    lemma_infix_inert(toks, s, 0);
    assert(assignment(toks, s).state == s);
    assert(expression_statement(toks, s).state == s);
}

/// An error outside panic is recorded on the current token's line, and
/// leaves the parser in panic at a statement boundary: at the end of
/// input, after a semicolon, or before a token that starts a statement.
pub proof fn lemma_error_synchronises(toks: Seq<TokenView>, s: ParseState, message: Seq<char>)
    requires
        !s.panic,
        0 <= s.pos < toks.len(),
        toks.last().kind is EOF,
    ensures
        error(toks, s, message).panic,
        error(toks, s, message).errors == s.errors.push(
            StaticErrorView { line: toks[s.pos].line, message },
        ),
        s.pos <= error(toks, s, message).pos < toks.len(),
        !(toks[s.pos].kind is EOF) ==> s.pos < error(toks, s, message).pos,
        ({
            let at = error(toks, s, message).pos;
            toks[at].kind is EOF || starts_statement(toks[at].kind) || toks[at - 1].kind
                is SEMICOLON
        }),
{
    if !(toks[s.pos].kind is EOF) {
        lemma_boundary(toks, s.pos + 1);
    }
}

/// The boundary found from `pos` on lies from `pos` on, and is one.
proof fn lemma_boundary(toks: Seq<TokenView>, pos: int)
    requires
        1 <= pos < toks.len(),
        toks.last().kind is EOF,
    ensures
        pos <= boundary(toks, pos) < toks.len(),
        ({
            let at = boundary(toks, pos);
            toks[at].kind is EOF || starts_statement(toks[at].kind) || toks[at - 1].kind
                is SEMICOLON
        }),
    decreases toks.len() - pos,
{
    if !(toks[pos].kind is EOF) && !(toks[pos - 1].kind is SEMICOLON) && !starts_statement(
        toks[pos].kind,
    ) {
        lemma_boundary(toks, pos + 1);
    }
}

/// The state in which parsing starts.
pub open spec fn start() -> ParseState {
    ParseState { pos: 0, errors: Seq::empty(), panic: false }
}

} // verus!
