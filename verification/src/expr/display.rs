//! The text form of expressions, statements and declarations: operators
//! stand before their operands, and every compound expression is in
//! parentheses.
use vstd::prelude::*;
use vstd::string::StringExecFns;
use crate::expr::{Boperator, Call, Expr, ExprKind, ExprType, ExprView, Literal, LiteralView,
    Loperator, Uoperator, expr_views};
use crate::expr::stmt::{Decl, DeclView, Stmt, StmtView, decl_views, name_views};

verus! {

/// The text of a binary operator.
pub open spec fn boperator_text(op: Boperator) -> Seq<char> {
    match op {
        Boperator::EqualEqual => "=="@,
        Boperator::BangEqual => "!="@,
        Boperator::Less => "<"@,
        Boperator::LessEqual => "<="@,
        Boperator::Greater => ">"@,
        Boperator::GreaterEqual => ">="@,
        Boperator::Plus => "+"@,
        Boperator::Minus => "-"@,
        Boperator::Star => "*"@,
        Boperator::Slash => "/"@,
    }
}

/// The text of a logical operator.
pub open spec fn loperator_text(op: Loperator) -> Seq<char> {
    match op {
        Loperator::Or => "or"@,
        Loperator::And => "and"@,
    }
}

/// The text of a unary operator.
pub open spec fn uoperator_text(op: Uoperator) -> Seq<char> {
    match op {
        Uoperator::Minus => "-"@,
        Uoperator::Bang => "!"@,
    }
}

/// A number is written as its numeral, a string as its content.
pub open spec fn literal_text(l: LiteralView) -> Seq<char> {
    match l {
        LiteralView::Num(n) => n,
        LiteralView::Str(s) => s,
        LiteralView::Bool(b) => if b {
            "true"@
        } else {
            "false"@
        },
        LiteralView::Nil => "nil"@,
    }
}

/// The text of an expression.
pub open spec fn expr_text(e: ExprView) -> Seq<char>
    decreases e, 0nat,
{
    match e.kind {
        ExprKind::Literal(l) => literal_text(l),
        ExprKind::Variable(n) => n,
        ExprKind::Assignment(n, value) => n + " = "@ + expr_text(*value),
        ExprKind::Call(callee, arguments) => expr_text(*callee) + "("@ + exprs_text(
            arguments,
            arguments.len(),
        ) + ")"@,
        ExprKind::Unary(op, operand) => "("@ + uoperator_text(op) + " "@ + expr_text(*operand)
            + ")"@,
        ExprKind::Logical(op, l, r) => "("@ + loperator_text(op) + " "@ + expr_text(*l) + " "@
            + expr_text(*r) + ")"@,
        ExprKind::Binary(op, l, r) => "("@ + boperator_text(op) + " "@ + expr_text(*l) + " "@
            + expr_text(*r) + ")"@,
        ExprKind::Grouping(inner) => "(group "@ + expr_text(*inner) + ")"@,
    }
}

/// The texts of the first `n` expressions, one after the other.
pub open spec fn exprs_text(es: Seq<ExprView>, n: nat) -> Seq<char>
    decreases es, n,
{
    if n == 0 || n > es.len() {
        Seq::empty()
    } else {
        exprs_text(es, (n - 1) as nat) + expr_text(es[n - 1])
    }
}

/// The first `n` names, one after the other.
pub open spec fn names_text(names: Seq<Seq<char>>, n: nat) -> Seq<char>
    decreases n,
{
    if n == 0 || n > names.len() {
        Seq::empty()
    } else {
        names_text(names, (n - 1) as nat) + names[n - 1]
    }
}

/// The text of a statement.
pub open spec fn stmt_text(s: StmtView) -> Seq<char>
    decreases s, 0nat,
{
    match s {
        StmtView::PrintStmt(e) => "print "@ + expr_text(e) + ";"@,
        StmtView::IfStmt(c, t, e) => "if "@ + expr_text(c) + "\n"@ + stmt_text(*t) + match e {
            Some(x) => "\nelse "@ + stmt_text(*x),
            None => Seq::empty(),
        },
        StmtView::WhileStmt(c, b) => "while "@ + expr_text(c) + "\n"@ + stmt_text(*b) + ";"@,
        StmtView::ExprStmt(e) => expr_text(e) + ";"@,
        StmtView::ReturnStmt(e) => "return "@ + expr_text(e) + ";"@,
        StmtView::Block(items) => "{\n"@ + decls_text(items, items.len()) + "}"@,
    }
}

/// The text of a declaration.
pub open spec fn decl_text(d: DeclView) -> Seq<char>
    decreases d, 0nat,
{
    match d {
        DeclView::FunDecl(name, params, body) => "fun "@ + name + "("@ + names_text(
            params,
            params.len(),
        ) + ") {\n"@ + decls_text(body, body.len()) + "}"@,
        DeclView::VarDecl(name, e) => "var "@ + name + " = "@ + expr_text(e) + ";"@,
        DeclView::Stmt(s) => stmt_text(s),
    }
}

/// The texts of the first `n` declarations, each on a line of its own.
pub open spec fn decls_text(ds: Seq<DeclView>, n: nat) -> Seq<char>
    decreases ds, n,
{
    if n == 0 || n > ds.len() {
        Seq::empty()
    } else {
        decls_text(ds, (n - 1) as nat) + decl_text(ds[n - 1]) + "\n"@
    }
}

impl Boperator {
    pub fn to_string(&self) -> (s: String)
        ensures
            s@ == boperator_text(*self),
    {
        String::from_str(
            match self {
                Boperator::EqualEqual => "==",
                Boperator::BangEqual => "!=",
                Boperator::Less => "<",
                Boperator::LessEqual => "<=",
                Boperator::Greater => ">",
                Boperator::GreaterEqual => ">=",
                Boperator::Plus => "+",
                Boperator::Minus => "-",
                Boperator::Star => "*",
                Boperator::Slash => "/",
            },
        )
    }
}

impl Loperator {
    pub fn to_string(&self) -> (s: String)
        ensures
            s@ == loperator_text(*self),
    {
        String::from_str(
            match self {
                Loperator::Or => "or",
                Loperator::And => "and",
            },
        )
    }
}

impl Uoperator {
    pub fn to_string(&self) -> (s: String)
        ensures
            s@ == uoperator_text(*self),
    {
        String::from_str(
            match self {
                Uoperator::Minus => "-",
                Uoperator::Bang => "!",
            },
        )
    }
}

impl Literal {
    pub fn to_string(&self) -> (s: String)
        ensures
            s@ == literal_text(self@),
    {
        match self {
            Literal::Num(n) => n.to_string(),
            Literal::Str(s) => s.clone(),
            Literal::Bool(b) => if *b {
                String::from_str("true")
            } else {
                String::from_str("false")
            },
            Literal::Nil => String::from_str("nil"),
        }
    }
}

/// `(<op> <l> <r>)`
fn infix_text(op: String, l: String, r: String) -> (s: String)
    ensures
        s@ == "("@ + op@ + " "@ + l@ + " "@ + r@ + ")"@,
{
    let mut s = String::from_str("(");
    s.append(op.as_str());
    s.append(" ");
    s.append(l.as_str());
    s.append(" ");
    s.append(r.as_str());
    s.append(")");
    s
}

impl Call {
    /// `<callee>(<arguments>)`, the arguments one after the other.
    pub fn to_string(&self) -> (s: String)
        ensures
            s@ == expr_text(self.callee@) + "("@ + exprs_text(
                expr_views(self.arguments@),
                self.arguments@.len(),
            ) + ")"@,
        decreases self, 1nat,
    {
        let ghost views = expr_views(self.arguments@);
        let mut arguments = String::new();
        let mut i: usize = 0;
        while i < self.arguments.len()
            invariant
                i <= self.arguments@.len(),
                views == expr_views(self.arguments@),
                arguments@ == exprs_text(views, i as nat),
            decreases self.arguments@.len() - i,
        {
            let a = self.arguments[i].to_string();
            assert(views[i as int] == self.arguments@[i as int]@);
            arguments.append(a.as_str());
            i += 1;
        }
        let mut s = (&*self.callee).to_string();
        s.append("(");
        s.append(arguments.as_str());
        s.append(")");
        s
    }
}

impl Expr {
    /// The text of the expression.
    pub fn to_string(&self) -> (s: String)
        ensures
            s@ == expr_text(self@),
        decreases self, 2nat,
    {
        match &self.exprType {
            ExprType::Literal(l) => l.to_string(),
            ExprType::Variable(n) => n.clone(),
            ExprType::Assignment(a) => {
                let mut s = a.id.clone();
                s.append(" = ");
                s.append((&*a.expr).to_string().as_str());
                s
            },
            ExprType::Call(c) => c.to_string(),
            ExprType::Unary(u) => {
                let mut s = String::from_str("(");
                s.append(u.operator.to_string().as_str());
                s.append(" ");
                s.append((&*u.expr).to_string().as_str());
                s.append(")");
                s
            },
            ExprType::Logical(l) => infix_text(
                l.operator.to_string(),
                (&*l.lexpr).to_string(),
                (&*l.rexpr).to_string(),
            ),
            ExprType::Binary(b) => infix_text(
                b.operator.to_string(),
                (&*b.lexpr).to_string(),
                (&*b.rexpr).to_string(),
            ),
            ExprType::Grouping(g) => {
                let mut s = String::from_str("(group ");
                s.append((&*g.expr).to_string().as_str());
                s.append(")");
                s
            },
        }
    }
}

/// The texts of declarations, each on a line of its own.
fn lines(ds: &Vec<Decl>) -> (s: String)
    ensures
        s@ == decls_text(decl_views(ds@), ds@.len()),
    decreases ds, 0nat,
{
    let ghost views = decl_views(ds@);
    let mut s = String::new();
    let mut i: usize = 0;
    while i < ds.len()
        invariant
            i <= ds@.len(),
            views == decl_views(ds@),
            s@ == decls_text(views, i as nat),
        decreases ds@.len() - i,
    {
        let d = ds[i].to_string();
        assert(views[i as int] == ds@[i as int]@);
        s.append(d.as_str());
        s.append("\n");
        i += 1;
    }
    s
}

/// Names, one after the other.
fn joined(names: &Vec<String>) -> (s: String)
    ensures
        s@ == names_text(name_views(names@), names@.len()),
{
    let mut s = String::new();
    let mut i: usize = 0;
    while i < names.len()
        invariant
            i <= names@.len(),
            s@ == names_text(name_views(names@), i as nat),
        decreases names@.len() - i,
    {
        s.append(names[i].as_str());
        i += 1;
    }
    s
}

impl Stmt {
    /// The text of the statement.
    pub fn to_string(&self) -> (s: String)
        ensures
            s@ == stmt_text(self@),
        decreases self, 1nat,
    {
        match self {
            Stmt::PrintStmt(e) => {
                let mut s = String::from_str("print ");
                s.append(e.to_string().as_str());
                s.append(";");
                s
            },
            Stmt::IfStmt(c, i, e) => {
                let mut s = String::from_str("if ");
                s.append(c.to_string().as_str());
                s.append("\n");
                s.append((&**i).to_string().as_str());
                match e {
                    Some(x) => {
                        s.append("\nelse ");
                        s.append((&**x).to_string().as_str());
                    },
                    None => {},
                }
                s
            },
            Stmt::WhileStmt(c, b) => {
                let mut s = String::from_str("while ");
                s.append(c.to_string().as_str());
                s.append("\n");
                s.append((&**b).to_string().as_str());
                s.append(";");
                s
            },
            Stmt::ExprStmt(e) => {
                let mut s = e.to_string();
                s.append(";");
                s
            },
            Stmt::ReturnStmt(r) => {
                let mut s = String::from_str("return ");
                s.append(r.to_string().as_str());
                s.append(";");
                s
            },
            Stmt::Block(b) => {
                let mut s = String::from_str("{\n");
                s.append(lines(b).as_str());
                s.append("}");
                s
            },
        }
    }
}

impl Decl {
    /// The text of the declaration.
    pub fn to_string(&self) -> (s: String)
        ensures
            s@ == decl_text(self@),
        decreases self, 1nat,
    {
        match self {
            Decl::FunDecl(n, p, b) => {
                let mut s = String::from_str("fun ");
                s.append(n.as_str());
                s.append("(");
                s.append(joined(p).as_str());
                s.append(") {\n");
                s.append(lines(b).as_str());
                s.append("}");
                s
            },
            Decl::VarDecl(n, e) => {
                let mut s = String::from_str("var ");
                s.append(n.as_str());
                s.append(" = ");
                s.append(e.to_string().as_str());
                s.append(";");
                s
            },
            Decl::Stmt(stmt) => stmt.to_string(),
        }
    }
}

} // verus!
