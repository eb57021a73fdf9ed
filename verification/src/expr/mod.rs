//! Expressions: the tree that the parser builds and the evaluator walks.
use vstd::prelude::*;
use crate::numeral::Numeral;

pub mod stmt;
pub mod from_token;
pub mod display;

verus! {

/// A unary operator.
#[derive(Debug, Clone, Copy, PartialEq, Eq, Structural)]
pub enum Uoperator {
    Minus,
    Bang,
}

/// A binary operator: equality, comparison or arithmetic.
#[derive(Debug, Clone, Copy, PartialEq, Eq, Structural)]
pub enum Boperator {
    EqualEqual,
    BangEqual,
    Less,
    LessEqual,
    Greater,
    GreaterEqual,
    Plus,
    Minus,
    Star,
    Slash,
}

/// A short-circuiting logical operator.
#[derive(Debug, Clone, Copy, PartialEq, Eq, Structural)]
pub enum Loperator {
    Or,
    And,
}

/// A literal. A number is kept as its numeral, exactly as written.
#[derive(Debug)]
pub enum Literal {
    Num(Numeral),
    Str(String),
    Bool(bool),
    Nil,
}

/// An expression and the line it stands on.
#[derive(Debug)]
pub struct Expr {
    pub exprType: ExprType,
    pub line: u32,
}

/// What an expression is.
#[derive(Debug)]
pub enum ExprType {
    Literal(Literal),
    Variable(String),
    Assignment(Assignment),
    Call(Call),
    Unary(Unary),
    Logical(Logical),
    Binary(Binary),
    Grouping(Grouping),
}

/// A call: the callee and the arguments, in order.
#[derive(Debug)]
pub struct Call {
    pub callee: Box<Expr>,
    pub arguments: Vec<Expr>,
}

/// An assignment: the variable's name and the value.
#[derive(Debug)]
pub struct Assignment {
    pub id: String,
    pub expr: Box<Expr>,
}

/// An expression in parentheses.
#[derive(Debug)]
pub struct Grouping {
    pub expr: Box<Expr>,
}

/// A unary operator and its operand.
#[derive(Debug)]
pub struct Unary {
    pub operator: Uoperator,
    pub expr: Box<Expr>,
}

/// A binary operator and its two operands.
#[derive(Debug)]
pub struct Binary {
    pub lexpr: Box<Expr>,
    pub operator: Boperator,
    pub rexpr: Box<Expr>,
}

/// A logical operator and its two operands.
#[derive(Debug)]
pub struct Logical {
    pub lexpr: Box<Expr>,
    pub operator: Loperator,
    pub rexpr: Box<Expr>,
}

/// The model of a [`Literal`].
pub enum LiteralView {
    Num(Seq<char>),
    Str(Seq<char>),
    Bool(bool),
    Nil,
}

/// The model of an [`Expr`].
pub struct ExprView {
    pub kind: ExprKind,
    pub line: u32,
}

/// The model of an [`ExprType`].
pub enum ExprKind {
    Literal(LiteralView),
    Variable(Seq<char>),
    Assignment(Seq<char>, Box<ExprView>),
    Call(Box<ExprView>, Seq<ExprView>),
    Unary(Uoperator, Box<ExprView>),
    Logical(Loperator, Box<ExprView>, Box<ExprView>),
    Binary(Boperator, Box<ExprView>, Box<ExprView>),
    Grouping(Box<ExprView>),
}

impl View for Literal {
    type V = LiteralView;

    open spec fn view(&self) -> LiteralView {
        match self {
            Literal::Num(s) => LiteralView::Num(s@),
            Literal::Str(s) => LiteralView::Str(s@),
            Literal::Bool(b) => LiteralView::Bool(*b),
            Literal::Nil => LiteralView::Nil,
        }
    }
}

/// The model of an expression tree.
pub open spec fn expr_view(e: Expr) -> ExprView
    decreases e,
{
    ExprView {
        kind: match e.exprType {
            ExprType::Literal(l) => ExprKind::Literal(l@),
            ExprType::Variable(n) => ExprKind::Variable(n@),
            ExprType::Assignment(a) => ExprKind::Assignment(a.id@, Box::new(expr_view(*a.expr))),
            ExprType::Call(c) => ExprKind::Call(
                Box::new(expr_view(*c.callee)),
                expr_views(c.arguments@),
            ),
            ExprType::Unary(u) => ExprKind::Unary(u.operator, Box::new(expr_view(*u.expr))),
            ExprType::Logical(l) => ExprKind::Logical(
                l.operator,
                Box::new(expr_view(*l.lexpr)),
                Box::new(expr_view(*l.rexpr)),
            ),
            ExprType::Binary(b) => ExprKind::Binary(
                b.operator,
                Box::new(expr_view(*b.lexpr)),
                Box::new(expr_view(*b.rexpr)),
            ),
            ExprType::Grouping(g) => ExprKind::Grouping(Box::new(expr_view(*g.expr))),
        },
        line: e.line,
    }
}

/// The models of a list of expressions, in order.
pub open spec fn expr_views(es: Seq<Expr>) -> Seq<ExprView>
    decreases es,
{
    Seq::new(es.len(), |i: int| if 0 <= i < es.len() { expr_view(es[i]) } else { arbitrary() })
}

/// Appending an expression appends its model.
pub proof fn lemma_expr_views_push(es: Seq<Expr>, e: Expr)
    ensures
        expr_views(es.push(e)) == expr_views(es).push(e@),
{
    assert(expr_views(es.push(e)) =~= expr_views(es).push(e@));
}

impl View for Expr {
    type V = ExprView;

    open spec fn view(&self) -> ExprView {
        expr_view(*self)
    }
}

/// A copy of a list of expressions.
pub fn clone_exprs(es: &Vec<Expr>) -> (r: Vec<Expr>)
    ensures
        expr_views(r@) == expr_views(es@),
    decreases es, 0int,
{
    let mut r: Vec<Expr> = Vec::new();
    let mut i: usize = 0;
    while i < es.len()
        invariant
            i <= es@.len(),
            r@.len() == i,
            forall|j: int| 0 <= j < i ==> (#[trigger] r@[j])@ == es@[j]@,
        decreases es.len() - i,
    {
        r.push(es[i].clone());
        i += 1;
    }
    assert(expr_views(r@) =~= expr_views(es@));
    r
}

impl Clone for Literal {
    fn clone(&self) -> (r: Literal)
        ensures
            r@ == self@,
    {
        match self {
            Literal::Num(s) => Literal::Num(s.clone()),
            Literal::Str(s) => Literal::Str(s.clone()),
            Literal::Bool(b) => Literal::Bool(*b),
            Literal::Nil => Literal::Nil,
        }
    }
}

impl Clone for Expr {
    fn clone(&self) -> (r: Expr)
        ensures
            r@ == self@,
        decreases self, 1int,
    {
        let exprType = match &self.exprType {
            ExprType::Literal(l) => ExprType::Literal(l.clone()),
            ExprType::Variable(n) => ExprType::Variable(n.clone()),
            ExprType::Assignment(a) => ExprType::Assignment(
                Assignment { id: a.id.clone(), expr: Box::new((&*a.expr).clone()) },
            ),
            ExprType::Call(c) => ExprType::Call(
                Call { callee: Box::new((&*c.callee).clone()), arguments: clone_exprs(&c.arguments) },
            ),
            ExprType::Unary(u) => ExprType::Unary(
                Unary { operator: u.operator, expr: Box::new((&*u.expr).clone()) },
            ),
            ExprType::Logical(l) => ExprType::Logical(
                Logical {
                    lexpr: Box::new((&*l.lexpr).clone()),
                    operator: l.operator,
                    rexpr: Box::new((&*l.rexpr).clone()),
                },
            ),
            ExprType::Binary(b) => ExprType::Binary(
                Binary {
                    lexpr: Box::new((&*b.lexpr).clone()),
                    operator: b.operator,
                    rexpr: Box::new((&*b.rexpr).clone()),
                },
            ),
            ExprType::Grouping(g) => ExprType::Grouping(
                Grouping { expr: Box::new((&*g.expr).clone()) },
            ),
        };
        Expr { exprType, line: self.line }
    }
}

impl Expr {
    pub fn new(exprType: ExprType, line: u32) -> (e: Expr)
        ensures
            e.exprType == exprType,
            e.line == line,
    {
        Expr { exprType, line }
    }
}

} // verus!
