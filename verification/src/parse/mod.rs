//! The parser: from tokens to declarations.
//!
//! A recursive-descent parser with one token of lookahead. It never
//! fails: what cannot be parsed is recorded as an error, the parser skips
//! to the next statement boundary and goes on. Every method is proved to
//! build what the [`grammar`] defines.
use vstd::prelude::*;
use crate::expr::{Assignment, Binary, Call, Expr, ExprType, Grouping, Literal, Logical, Unary,
    Uoperator, expr_views, lemma_expr_views_push};
use crate::expr::stmt::{Decl, DeclView, Stmt, StmtView, decl_views, lemma_decl_views_push,
    name_views};
use crate::static_error::{LoxStaticError, error_views};
use crate::token::{Token, TokenType, TokenView, token_views};
use crate::parse::grammar::{ParseState, Parsed, Infix, advance, at_end, kind_at, line_at, record};

pub mod grammar;

verus! {

/// Whether a token sequence ends with the end-of-input token.
pub open spec fn ends_input(toks: Seq<TokenView>) -> bool {
    toks.len() > 0 && toks.last().kind is EOF
}

/// A parser over a token sequence: the tokens, the position of the
/// current token, and the errors recorded so far.
pub struct Parser {
    pub tokens: Vec<Token>,
    current: usize,
    errors: Vec<LoxStaticError>,
    /// Whether an error has been found in the statement being read.
    panic: bool,
}

/// The operator that `kind` writes at a precedence level, if any.
fn infix_operator(level: u8, kind: &TokenType) -> (r: Option<Infix>)
    ensures
        r == grammar::infix_at(level as int, kind@),
{
    if level == 0 {
        match kind {
            TokenType::OR => Some(Infix::Logical(crate::expr::Loperator::Or)),
            _ => None,
        }
    } else if level == 1 {
        match kind {
            TokenType::AND => Some(Infix::Logical(crate::expr::Loperator::And)),
            _ => None,
        }
    } else if level == 2 {
        match kind {
            TokenType::BANG_EQUAL => Some(Infix::Binary(crate::expr::Boperator::BangEqual)),
            TokenType::EQUAL_EQUAL => Some(Infix::Binary(crate::expr::Boperator::EqualEqual)),
            _ => None,
        }
    } else if level == 3 {
        match kind {
            TokenType::GREATER => Some(Infix::Binary(crate::expr::Boperator::Greater)),
            TokenType::GREATER_EQUAL => Some(Infix::Binary(crate::expr::Boperator::GreaterEqual)),
            TokenType::LESS => Some(Infix::Binary(crate::expr::Boperator::Less)),
            TokenType::LESS_EQUAL => Some(Infix::Binary(crate::expr::Boperator::LessEqual)),
            _ => None,
        }
    } else if level == 4 {
        match kind {
            TokenType::MINUS => Some(Infix::Binary(crate::expr::Boperator::Minus)),
            TokenType::PLUS => Some(Infix::Binary(crate::expr::Boperator::Plus)),
            _ => None,
        }
    } else if level == 5 {
        match kind {
            TokenType::SLASH => Some(Infix::Binary(crate::expr::Boperator::Slash)),
            TokenType::STAR => Some(Infix::Binary(crate::expr::Boperator::Star)),
            _ => None,
        }
    } else {
        None
    }
}

/// Joins two operands by an infix operator.
fn join(op: Infix, l: Expr, r: Expr, line: u32) -> (e: Expr)
    ensures
        e@ == grammar::infix_node(op, l@, r@, line),
{
    match op {
        Infix::Logical(operator) => Expr::new(
            ExprType::Logical(Logical { lexpr: Box::new(l), operator, rexpr: Box::new(r) }),
            line,
        ),
        Infix::Binary(operator) => Expr::new(
            ExprType::Binary(Binary { lexpr: Box::new(l), operator, rexpr: Box::new(r) }),
            line,
        ),
    }
}

fn nil_at(line: u32) -> (e: Expr)
    ensures
        e@ == grammar::nil(line),
{
    Expr::new(ExprType::Literal(Literal::Nil), line)
}

/// Builds the loop that the parts of a `for` statement stand for.
fn for_loop(
    init: Option<Decl>,
    cond: Option<Expr>,
    cond_line: u32,
    incr: Option<Expr>,
    body: Stmt,
) -> (s: Stmt)
    ensures
        s@ == grammar::for_loop(
            match init {
                Some(d) => Some(d@),
                None => None,
            },
            match cond {
                Some(c) => Some(c@),
                None => None,
            },
            cond_line,
            match incr {
                Some(i) => Some(i@),
                None => None,
            },
            body@,
        ),
{
    let ghost body_view = body@;
    let ghost stepped_view = match &incr {
        Some(i) => StmtView::Block(
            seq![DeclView::Stmt(body_view), DeclView::Stmt(StmtView::ExprStmt(i@))],
        ),
        None => body_view,
    };
    let stepped = match incr {
        Some(i) => {
            let mut both: Vec<Decl> = Vec::new();
            both.push(Decl::Stmt(body));
            both.push(Decl::Stmt(Stmt::ExprStmt(i)));
            assert(both@[0]@ == DeclView::Stmt(body_view));
            assert(both@[1]@ == DeclView::Stmt(StmtView::ExprStmt(i@)));
            assert(decl_views(both@) =~= seq![both@[0]@, both@[1]@]);
            let block = Stmt::Block(both);
            assert(block@ == stepped_view);
            block
        },
        None => body,
    };
    assert(stepped@ == stepped_view);
    let tested = match cond {
        Some(c) => c,
        None => Expr::new(ExprType::Literal(Literal::Bool(true)), cond_line),
    };
    let ghost repeated_view = StmtView::WhileStmt(tested@, Box::new(stepped_view));
    let repeated = Stmt::WhileStmt(tested, Box::new(stepped));
    assert(repeated@ == repeated_view);
    match init {
        Some(d) => {
            let ghost first = d@;
            let mut both: Vec<Decl> = Vec::new();
            both.push(d);
            both.push(Decl::Stmt(repeated));
            assert(both@[0]@ == first);
            assert(both@[1]@ == DeclView::Stmt(repeated_view));
            assert(decl_views(both@) =~= seq![both@[0]@, both@[1]@]);
            let block = Stmt::Block(both);
            assert(block@ == StmtView::Block(seq![first, DeclView::Stmt(repeated_view)]));
            block
        },
        None => repeated,
    }
}

impl Parser {
    /// The model of the tokens.
    pub closed spec fn toks(&self) -> Seq<TokenView> {
        token_views(self.tokens@)
    }

    /// The model of the parser's position and recorded errors.
    pub closed spec fn state(&self) -> ParseState {
        ParseState {
            pos: self.current as int,
            errors: error_views(self.errors@),
            panic: self.panic,
        }
    }

    /// The parser stands on a token, the tokens end with the end of input,
    /// and no token behind the parser is the end of input.
    pub closed spec fn wf(&self) -> bool {
        &&& self.current < self.tokens@.len()
        &&& self.tokens@.last().tokenType@ is EOF
        &&& forall|i: int| 0 <= i < self.current ==> !(#[trigger] self.tokens@[i].tokenType@ is EOF)
    }

    /// A well-formed parser that has read nothing yet.
    pub closed spec fn ready(&self) -> bool {
        self.wf() && self.state() == grammar::start()
    }

    /// This parser has read on from where `before` stood.
    spec fn follows(&self, before: &Parser) -> bool {
        &&& self.wf()
        &&& self.tokens == before.tokens
        &&& self.current >= before.current
    }

    /// This parser has read at least one token more than `before`, unless
    /// `before` stood at the end of input.
    spec fn moved(&self, before: &Parser) -> bool {
        at_end(before.toks(), before.state()) || self.current > before.current
    }

    /// A parser over `tokens`, which must end with the end-of-input token.
    pub fn new(tokens: Vec<Token>) -> (p: Parser)
        requires
            ends_input(token_views(tokens@)),
        ensures
            p.toks() == token_views(tokens@),
            p.ready(),
    {
        let p = Parser { tokens, current: 0, errors: Vec::new(), panic: false };
        assert(p.state().errors =~= Seq::empty());
        p
    }

    /// Parses the whole token sequence: the declarations of the program,
    /// and every syntax error found on the way.
    #[verifier::loop_isolation(false)]
    pub fn parse(self) -> (r: (Vec<Decl>, Vec<LoxStaticError>))
        requires
            self.ready(),
        ensures
            decl_views(r.0@) == grammar::program(self.toks(), grammar::start(), Seq::empty()).value,
            error_views(r.1@) == grammar::program(
                self.toks(),
                grammar::start(),
                Seq::empty(),
            ).state.errors,
    {
        let ghost toks = self.toks();
        let ghost whole = grammar::program(toks, grammar::start(), Seq::empty());
        let mut parser = self;
        let mut decls: Vec<Decl> = Vec::new();
        assert(decl_views(decls@) =~= Seq::empty());
        while !parser.end()
            invariant
                parser.wf(),
                parser.toks() == toks,
                grammar::program(toks, parser.state(), decl_views(decls@)) == whole,
            decreases parser.tokens@.len() - parser.current,
        {
            let d = parser.declaration();
            proof {
                lemma_decl_views_push(decls@, d);
            }
            decls.push(d);
            parser.panic = false;
        }
        (decls, parser.errors)
    }

    fn end(&self) -> (r: bool)
        requires
            self.wf(),
        ensures
            r == at_end(self.toks(), self.state()),
    {
        self.panic || self.tokens[self.current].tokenType == TokenType::EOF
    }

    fn line(&self) -> (r: u32)
        requires
            self.wf(),
        ensures
            r == line_at(self.toks(), self.state()),
    {
        self.tokens[self.current].line
    }

    /// The kind of the current token, as the parser sees it.
    fn kind(&self) -> (k: &TokenType)
        requires
            self.wf(),
        ensures
            k@ == kind_at(self.toks(), self.state()),
    {
        if self.panic {
            &self.tokens[self.tokens.len() - 1].tokenType
        } else {
            &self.tokens[self.current].tokenType
        }
    }

    /// Whether the current token is of kind `kind`.
    fn sees(&self, kind: &TokenType) -> (r: bool)
        requires
            self.wf(),
        ensures
            r == (kind_at(self.toks(), self.state()) == kind@),
    {
        *self.kind() == *kind
    }

    /// Passes over the current token, which is not the end of input.
    fn step(&mut self)
        requires
            old(self).wf(),
            !at_end(old(self).toks(), old(self).state()),
        ensures
            final(self).follows(old(self)),
            final(self).current == old(self).current + 1,
            final(self).state() == advance(old(self).state()),
    {
        let n = self.tokens.len();
        assert(self.current + 1 < n);
        self.current += 1;
    }

    /// Passes over the current token if it is of kind `kind`.
    fn check(&mut self, kind: &TokenType) -> (r: bool)
        requires
            old(self).wf(),
            !(kind@ is EOF),
        ensures
            final(self).follows(old(self)),
            r == (kind_at(old(self).toks(), old(self).state()) == kind@),
            r ==> final(self).state() == advance(old(self).state()) && final(self).current
                == old(self).current + 1,
            !r ==> final(self).state() == old(self).state(),
    {
        if self.sees(kind) {
            self.step();
            true
        } else {
            false
        }
    }

    fn record(&mut self, line: u32, message: &str)
        requires
            old(self).wf(),
        ensures
            final(self).follows(old(self)),
            final(self).state() == record(old(self).state(), line, message@),
    {
        if self.panic {
            return ;
        }
        let ghost before = error_views(self.errors@);
        self.errors.push(LoxStaticError::new(line, message));
        assert(error_views(self.errors@) =~= before.push(
            crate::static_error::StaticErrorView { line, message: message@ },
        ));
    }

    fn error(&mut self, message: &str)
        requires
            old(self).wf(),
        ensures
            final(self).follows(old(self)),
            final(self).moved(old(self)),
            final(self).state() == grammar::error(old(self).toks(), old(self).state(), message@),
    {
        if self.panic {
            return ;
        }
        let line = self.line();
        self.record(line, message);
        self.synch();
        self.panic = true;
    }

    /// Skips the current token, then on to the next statement boundary.
    #[verifier::loop_isolation(false)]
    fn synch(&mut self)
        requires
            old(self).wf(),
            !old(self).panic,
        ensures
            final(self).follows(old(self)),
            final(self).moved(old(self)),
            final(self).state() == grammar::calm(
                grammar::synch(old(self).toks(), old(self).state()),
            ),
    {
        if self.end() {
            return ;
        }
        self.step();
        let ghost toks = self.toks();
        let ghost from = self.current as int;
        while !self.end()
            invariant
                self.follows(old(self)),
                self.toks() == toks,
                !self.panic,
                self.current >= 1,
                self.current > old(self).current,
                self.state().errors == old(self).state().errors,
                grammar::boundary(toks, from) == grammar::boundary(toks, self.current as int),
            decreases self.tokens@.len() - self.current,
        {
            if self.tokens[self.current - 1].tokenType == TokenType::SEMICOLON {
                return ;
            }
            match self.tokens[self.current].tokenType {
                TokenType::CLASS => return ,
                TokenType::FUN => return ,
                TokenType::VAR => return ,
                TokenType::FOR => return ,
                TokenType::IF => return ,
                TokenType::WHILE => return ,
                TokenType::PRINT => return ,
                TokenType::RETURN => return ,
                _ => (),
            }
            self.step();
        }
    }

    fn consume(&mut self, kind: &TokenType, message: &str)
        requires
            old(self).wf(),
            !(kind@ is EOF),
        ensures
            final(self).follows(old(self)),
            final(self).moved(old(self)),
            final(self).state() == grammar::consume(
                old(self).toks(),
                old(self).state(),
                kind@,
                message@,
            ),
    {
        if self.sees(kind) {
            self.step();
        } else {
            self.error(message);
        }
    }

    fn idConsume(&mut self, message: &str) -> (name: String)
        requires
            old(self).wf(),
        ensures
            final(self).follows(old(self)),
            final(self).moved(old(self)),
            (Parsed { value: name@, state: final(self).state() }) == grammar::id_consume(
                old(self).toks(),
                old(self).state(),
                message@,
            ),
    {
        match self.kind() {
            TokenType::IDENTIFIER(n) => {
                let name = n.clone();
                self.step();
                name
            },
            _ => {
                self.error(message);
                String::new()
            },
        }
    }

    fn declaration(&mut self) -> (d: Decl)
        requires
            old(self).wf(),
        ensures
            final(self).follows(old(self)),
            final(self).moved(old(self)),
            (Parsed { value: d@, state: final(self).state() }) == grammar::declaration(
                old(self).toks(),
                old(self).state(),
            ),
        decreases old(self).tokens@.len() - old(self).current, 27int,
    {
        if self.check(&TokenType::VAR) {
            return self.varDeclaration();
        }
        if self.check(&TokenType::FUN) {
            return self.funDeclaration();
        }
        Decl::Stmt(self.statement())
    }

    fn varDeclaration(&mut self) -> (d: Decl)
        requires
            old(self).wf(),
        ensures
            final(self).follows(old(self)),
            (Parsed { value: d@, state: final(self).state() }) == grammar::var_declaration(
                old(self).toks(),
                old(self).state(),
            ),
        decreases old(self).tokens@.len() - old(self).current, 30int,
    {
        let name = self.idConsume("Expected variable name");
        let mut value = nil_at(self.line());
        if self.check(&TokenType::EQUAL) {
            value = self.expression();
        }
        self.consume(&TokenType::SEMICOLON, "Expected \";\" after variable declaration");
        Decl::VarDecl(name, value)
    }

    fn funDeclaration(&mut self) -> (d: Decl)
        requires
            old(self).wf(),
            old(self).current >= 1,
        ensures
            final(self).follows(old(self)),
            (Parsed { value: d@, state: final(self).state() }) == grammar::fun_declaration(
                old(self).toks(),
                old(self).state(),
            ),
        decreases old(self).tokens@.len() - old(self).current, 30int,
    {
        let name = self.idConsume("Expected function name");
        self.consume(&TokenType::LEFT_PAREN, "Expected \"(\" after function name");
        let parameters = if !self.sees(&TokenType::RIGHT_PAREN) {
            self.parameters()
        } else {
            let none: Vec<String> = Vec::new();
            assert(name_views(none@) =~= Seq::empty());
            none
        };
        self.consume(&TokenType::RIGHT_PAREN, "Expected \")\" after parameters");
        self.consume(&TokenType::LEFT_BRACE, "Expected \"{\" before function body");
        let body = self.block();
        Decl::FunDecl(name, parameters, body)
    }

    /// The parameter names of a function, separated by commas.
    #[verifier::loop_isolation(false)]
    fn parameters(&mut self) -> (names: Vec<String>)
        requires
            old(self).wf(),
        ensures
            final(self).follows(old(self)),
            (Parsed { value: name_views(names@), state: final(self).state() })
                == grammar::parameters(old(self).toks(), old(self).state(), Seq::empty()),
    {
        let ghost toks = self.toks();
        let mut parameters: Vec<String> = Vec::new();
        assert(name_views(parameters@) =~= Seq::empty());
        loop
            invariant
                self.follows(old(self)),
                self.toks() == toks,
                grammar::parameters(toks, self.state(), name_views(parameters@))
                    == grammar::parameters(toks, old(self).state(), Seq::empty()),
            decreases self.tokens@.len() - self.current,
        {
            let ghost seen = name_views(parameters@);
            if parameters.len() >= 255 {
                let line = self.line();
                self.record(line, "Can't have more than 255 parameters");
            }
            let parameter = self.idConsume("Expected parameter name");
            parameters.push(parameter);
            assert(name_views(parameters@) =~= seen.push(parameter@));
            if !self.check(&TokenType::COMMA) {
                return parameters;
            }
        }
    }

    fn statement(&mut self) -> (s: Stmt)
        requires
            old(self).wf(),
        ensures
            final(self).follows(old(self)),
            final(self).moved(old(self)),
            (Parsed { value: s@, state: final(self).state() }) == grammar::statement(
                old(self).toks(),
                old(self).state(),
            ),
        decreases old(self).tokens@.len() - old(self).current, 26int,
    {
        if self.check(&TokenType::IF) {
            self.ifStatement()
        } else if self.check(&TokenType::PRINT) {
            self.printStatement()
        } else if self.check(&TokenType::LEFT_BRACE) {
            Stmt::Block(self.block())
        } else if self.check(&TokenType::WHILE) {
            self.whileStatement()
        } else if self.check(&TokenType::FOR) {
            self.forStatement()
        } else if self.check(&TokenType::RETURN) {
            self.returnStatement()
        } else {
            self.expressionStatement()
        }
    }

    fn returnStatement(&mut self) -> (s: Stmt)
        requires
            old(self).wf(),
        ensures
            final(self).follows(old(self)),
            (Parsed { value: s@, state: final(self).state() }) == grammar::return_statement(
                old(self).toks(),
                old(self).state(),
            ),
        decreases old(self).tokens@.len() - old(self).current, 28int,
    {
        let line = self.line();
        if self.check(&TokenType::SEMICOLON) {
            return Stmt::ReturnStmt(nil_at(line));
        }
        let expr = self.expression();
        self.consume(&TokenType::SEMICOLON, "Expected \";\" after return value");
        Stmt::ReturnStmt(expr)
    }

    fn forStatement(&mut self) -> (s: Stmt)
        requires
            old(self).wf(),
        ensures
            final(self).follows(old(self)),
            (Parsed { value: s@, state: final(self).state() }) == grammar::for_statement(
                old(self).toks(),
                old(self).state(),
            ),
        decreases old(self).tokens@.len() - old(self).current, 28int,
    {
        self.consume(&TokenType::LEFT_PAREN, "Expected \"(\" after \"for\"");
        let initialiser = if self.check(&TokenType::SEMICOLON) {
            None
        } else if self.check(&TokenType::VAR) {
            Some(self.varDeclaration())
        } else {
            Some(Decl::Stmt(self.expressionStatement()))
        };
        let condLine = self.line();
        let condition = if !self.sees(&TokenType::SEMICOLON) {
            Some(self.expression())
        } else {
            None
        };
        self.consume(&TokenType::SEMICOLON, "Expected \";\" after loop condition");
        let increment = if !self.sees(&TokenType::RIGHT_PAREN) {
            Some(self.expression())
        } else {
            None
        };
        self.consume(&TokenType::RIGHT_PAREN, "Expected \")\" after for clauses");
        let body = self.statement();
        for_loop(initialiser, condition, condLine, increment, body)
    }

    fn whileStatement(&mut self) -> (s: Stmt)
        requires
            old(self).wf(),
        ensures
            final(self).follows(old(self)),
            (Parsed { value: s@, state: final(self).state() }) == grammar::while_statement(
                old(self).toks(),
                old(self).state(),
            ),
        decreases old(self).tokens@.len() - old(self).current, 28int,
    {
        self.consume(&TokenType::LEFT_PAREN, "Expected \"(\" after \"while\"");
        let condition = self.expression();
        self.consume(&TokenType::RIGHT_PAREN, "Expected \")\" after while condition");
        let body = self.statement();
        Stmt::WhileStmt(condition, Box::new(body))
    }

    fn ifStatement(&mut self) -> (s: Stmt)
        requires
            old(self).wf(),
        ensures
            final(self).follows(old(self)),
            (Parsed { value: s@, state: final(self).state() }) == grammar::if_statement(
                old(self).toks(),
                old(self).state(),
            ),
        decreases old(self).tokens@.len() - old(self).current, 28int,
    {
        self.consume(&TokenType::LEFT_PAREN, "Expected \"(\" after \"if\"");
        let condition = self.expression();
        self.consume(&TokenType::RIGHT_PAREN, "Expected \")\" after if condition");
        let thenBranch = self.statement();
        let mut elseBranch = None;
        if self.check(&TokenType::ELSE) {
            elseBranch = Some(Box::new(self.statement()));
        }
        Stmt::IfStmt(condition, Box::new(thenBranch), elseBranch)
    }

    #[verifier::loop_isolation(false)]
    fn block(&mut self) -> (decls: Vec<Decl>)
        requires
            old(self).wf(),
            old(self).current >= 1,
        ensures
            final(self).follows(old(self)),
            (Parsed { value: decl_views(decls@), state: final(self).state() }) == grammar::block(
                old(self).toks(),
                old(self).state(),
                Seq::empty(),
            ),
        decreases old(self).tokens@.len() - old(self).current, 29int,
    {
        let ghost toks = self.toks();
        let mut decls: Vec<Decl> = Vec::new();
        assert(decl_views(decls@) =~= Seq::empty());
        loop
            invariant
                self.follows(old(self)),
                self.toks() == toks,
                grammar::block(toks, self.state(), decl_views(decls@)) == grammar::block(
                    toks,
                    old(self).state(),
                    Seq::empty(),
                ),
            decreases self.tokens@.len() - self.current,
        {
            if self.check(&TokenType::RIGHT_BRACE) {
                return decls;
            }
            if self.end() {
                if !(self.tokens[self.current - 1].tokenType == TokenType::RIGHT_BRACE) {
                    let line = self.tokens[self.current - 1].line;
                    self.record(line, "Expected \"}\" after block");
                }
                return decls;
            }
            let d = self.declaration();
            proof {
                lemma_decl_views_push(decls@, d);
            }
            decls.push(d);
            self.panic = false;
        }
    }

    fn printStatement(&mut self) -> (s: Stmt)
        requires
            old(self).wf(),
        ensures
            final(self).follows(old(self)),
            (Parsed { value: s@, state: final(self).state() }) == grammar::print_statement(
                old(self).toks(),
                old(self).state(),
            ),
        decreases old(self).tokens@.len() - old(self).current, 28int,
    {
        let value = self.expression();
        self.consume(&TokenType::SEMICOLON, "Expected \";\" after value");
        Stmt::PrintStmt(value)
    }

    fn expressionStatement(&mut self) -> (s: Stmt)
        requires
            old(self).wf(),
        ensures
            final(self).follows(old(self)),
            final(self).moved(old(self)),
            (Parsed { value: s@, state: final(self).state() }) == grammar::expression_statement(
                old(self).toks(),
                old(self).state(),
            ),
        decreases old(self).tokens@.len() - old(self).current, 25int,
    {
        let value = self.expression();
        self.consume(&TokenType::SEMICOLON, "Expected \";\" after value");
        Stmt::ExprStmt(value)
    }

    fn expression(&mut self) -> (e: Expr)
        requires
            old(self).wf(),
        ensures
            final(self).follows(old(self)),
            final(self).moved(old(self)),
            (Parsed { value: e@, state: final(self).state() }) == grammar::expression(
                old(self).toks(),
                old(self).state(),
            ),
        decreases old(self).tokens@.len() - old(self).current, 24int,
    {
        self.assignment()
    }

    #[verifier::loop_isolation(false)]
    fn assignment(&mut self) -> (e: Expr)
        requires
            old(self).wf(),
        ensures
            final(self).follows(old(self)),
            final(self).moved(old(self)),
            (Parsed { value: e@, state: final(self).state() }) == grammar::assignment(
                old(self).toks(),
                old(self).state(),
            ),
        decreases old(self).tokens@.len() - old(self).current, 23int,
    {
        let ghost toks = self.toks();
        let ghost whole = grammar::assignment(toks, old(self).state());
        let expr = self.assignment_target();
        loop
            invariant
                self.follows(old(self)),
                self.moved(old(self)),
                self.toks() == toks,
                grammar::assignment_rest(toks, self.state(), expr@) == whole,
            decreases self.tokens@.len() - self.current,
        {
            let line = self.line();
            if !self.check(&TokenType::EQUAL) {
                return expr;
            }
            let value = self.assignment();
            if let ExprType::Variable(n) = expr.exprType {
                return Expr::new(
                    ExprType::Assignment(Assignment { id: n, expr: Box::new(value) }),
                    line,
                );
            }
            self.record(line, "Invalid assignment target");
        }
    }

    /// What may stand left of `=`: an expression of the loosest infix level.
    fn assignment_target(&mut self) -> (e: Expr)
        requires
            old(self).wf(),
        ensures
            final(self).follows(old(self)),
            final(self).moved(old(self)),
            (Parsed { value: e@, state: final(self).state() }) == grammar::infix(
                old(self).toks(),
                old(self).state(),
                0,
            ),
        decreases old(self).tokens@.len() - old(self).current, 22int,
    {
        self.infix(0)
    }

    /// An expression of the infix level `level`, or a unary expression
    /// past the last level.
    #[verifier::loop_isolation(false)]
    fn infix(&mut self, level: u8) -> (e: Expr)
        requires
            old(self).wf(),
            level <= 6,
        ensures
            final(self).follows(old(self)),
            final(self).moved(old(self)),
            (Parsed { value: e@, state: final(self).state() }) == grammar::infix(
                old(self).toks(),
                old(self).state(),
                level as int,
            ),
        decreases old(self).tokens@.len() - old(self).current, grammar::level_rank(level as int),
    {
        if level >= 6 {
            return self.unary();
        }
        let ghost toks = self.toks();
        let ghost whole = grammar::infix(toks, old(self).state(), level as int);
        let mut expr = self.infix(level + 1);
        loop
            invariant
                level < 6,
                self.follows(old(self)),
                self.moved(old(self)),
                self.toks() == toks,
                grammar::infix_rest(toks, self.state(), level as int, expr@) == whole,
            decreases self.tokens@.len() - self.current,
        {
            match infix_operator(level, self.kind()) {
                None => {
                    return expr;
                },
                Some(op) => {
                    let line = self.line();
                    self.step();
                    let right = self.infix(level + 1);
                    expr = join(op, expr, right, line);
                },
            }
        }
    }

    fn unary(&mut self) -> (e: Expr)
        requires
            old(self).wf(),
        ensures
            final(self).follows(old(self)),
            final(self).moved(old(self)),
            (Parsed { value: e@, state: final(self).state() }) == grammar::unary(
                old(self).toks(),
                old(self).state(),
            ),
        decreases old(self).tokens@.len() - old(self).current, 8int,
    {
        match Uoperator::try_from(self.kind()) {
            Ok(operator) => {
                let line = self.line();
                self.step();
                let right = self.unary();
                Expr::new(ExprType::Unary(Unary { operator, expr: Box::new(right) }), line)
            },
            Err(_) => self.call(),
        }
    }

    #[verifier::loop_isolation(false)]
    fn call(&mut self) -> (e: Expr)
        requires
            old(self).wf(),
        ensures
            final(self).follows(old(self)),
            final(self).moved(old(self)),
            (Parsed { value: e@, state: final(self).state() }) == grammar::call(
                old(self).toks(),
                old(self).state(),
            ),
        decreases old(self).tokens@.len() - old(self).current, 7int,
    {
        let ghost toks = self.toks();
        let ghost whole = grammar::call(toks, old(self).state());
        let mut expr = self.primary();
        loop
            invariant
                self.follows(old(self)),
                self.moved(old(self)),
                self.toks() == toks,
                grammar::call_rest(toks, self.state(), expr@) == whole,
            decreases self.tokens@.len() - self.current,
        {
            if self.check(&TokenType::LEFT_PAREN) {
                expr = self.finishCall(expr);
            } else {
                return expr;
            }
        }
    }

    fn finishCall(&mut self, callee: Expr) -> (e: Expr)
        requires
            old(self).wf(),
        ensures
            final(self).follows(old(self)),
            (Parsed { value: e@, state: final(self).state() }) == grammar::finish_call(
                old(self).toks(),
                old(self).state(),
                callee@,
            ),
        decreases old(self).tokens@.len() - old(self).current, 32int,
    {
        let arguments = if !self.sees(&TokenType::RIGHT_PAREN) {
            let first = self.expression();
            self.arguments(first)
        } else {
            let none: Vec<Expr> = Vec::new();
            assert(expr_views(none@) =~= Seq::empty());
            none
        };
        let line = self.line();
        self.consume(&TokenType::RIGHT_PAREN, "Expected \")\" after argument");
        Expr::new(ExprType::Call(Call { callee: Box::new(callee), arguments }), line)
    }

    /// The arguments of a call, of which `first` has been read.
    #[verifier::loop_isolation(false)]
    fn arguments(&mut self, first: Expr) -> (all: Vec<Expr>)
        requires
            old(self).wf(),
        ensures
            final(self).follows(old(self)),
            (Parsed { value: expr_views(all@), state: final(self).state() })
                == grammar::arguments_rest(old(self).toks(), old(self).state(), seq![first@]),
        decreases old(self).tokens@.len() - old(self).current, 31int,
    {
        let ghost toks = self.toks();
        let mut arguments: Vec<Expr> = Vec::new();
        proof {
            lemma_expr_views_push(arguments@, first);
            assert(expr_views(Seq::<Expr>::empty()) =~= Seq::empty());
            assert(Seq::<crate::expr::ExprView>::empty().push(first@) =~= seq![first@]);
        }
        arguments.push(first);
        loop
            invariant
                self.follows(old(self)),
                self.toks() == toks,
                grammar::arguments_rest(toks, self.state(), expr_views(arguments@))
                    == grammar::arguments_rest(toks, old(self).state(), seq![first@]),
            decreases self.tokens@.len() - self.current,
        {
            if !self.check(&TokenType::COMMA) {
                return arguments;
            }
            if arguments.len() >= 255 {
                let line = self.line();
                self.record(line, "Can't have more than 255 arguments");
            }
            let argument = self.expression();
            proof {
                lemma_expr_views_push(arguments@, argument);
            }
            arguments.push(argument);
        }
    }

    fn primary(&mut self) -> (e: Expr)
        requires
            old(self).wf(),
        ensures
            final(self).follows(old(self)),
            final(self).moved(old(self)),
            (Parsed { value: e@, state: final(self).state() }) == grammar::primary(
                old(self).toks(),
                old(self).state(),
            ),
        decreases old(self).tokens@.len() - old(self).current, 5int,
    {
        let line = self.line();
        match Literal::try_from(self.kind()) {
            Ok(l) => {
                self.step();
                return Expr::new(ExprType::Literal(l), line);
            },
            Err(_) => {
                if self.check(&TokenType::LEFT_PAREN) {
                    let expr = self.expression();
                    self.consume(&TokenType::RIGHT_PAREN, "Expected \")\"");
                    return Expr::new(ExprType::Grouping(Grouping { expr: Box::new(expr) }), line);
                }
                if let TokenType::IDENTIFIER(n) = self.kind() {
                    let name = n.clone();
                    self.step();
                    return Expr::new(ExprType::Variable(name), line);
                }
            },
        }
        self.error("Expected expression");
        nil_at(line)
    }
}

} // verus!
