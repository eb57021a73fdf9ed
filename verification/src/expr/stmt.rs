//! Statements and declarations.
use vstd::prelude::*;
use crate::expr::{Expr, ExprView};

verus! {

/// A declaration: a function, a variable, or a statement.
#[derive(Debug)]
pub enum Decl {
    FunDecl(String, Vec<String>, Vec<Decl>),
    VarDecl(String, Expr),
    Stmt(Stmt),
}

/// A statement.
#[derive(Debug)]
pub enum Stmt {
    ExprStmt(Expr),
    IfStmt(Expr, Box<Stmt>, Option<Box<Stmt>>),
    WhileStmt(Expr, Box<Stmt>),
    PrintStmt(Expr),
    ReturnStmt(Expr),
    Block(Vec<Decl>),
}

/// The model of a [`Decl`].
pub enum DeclView {
    FunDecl(Seq<char>, Seq<Seq<char>>, Seq<DeclView>),
    VarDecl(Seq<char>, ExprView),
    Stmt(StmtView),
}

/// The model of a [`Stmt`].
pub enum StmtView {
    ExprStmt(ExprView),
    IfStmt(ExprView, Box<StmtView>, Option<Box<StmtView>>),
    WhileStmt(ExprView, Box<StmtView>),
    PrintStmt(ExprView),
    ReturnStmt(ExprView),
    Block(Seq<DeclView>),
}

/// The views of a list of names, in order.
pub open spec fn name_views(names: Seq<String>) -> Seq<Seq<char>> {
    names.map_values(|n: String| n@)
}

/// The model of a declaration.
pub open spec fn decl_view(d: Decl) -> DeclView
    decreases d,
{
    match d {
        Decl::FunDecl(name, params, body) => DeclView::FunDecl(
            name@,
            name_views(params@),
            decl_views(body@),
        ),
        Decl::VarDecl(name, e) => DeclView::VarDecl(name@, e@),
        Decl::Stmt(s) => DeclView::Stmt(stmt_view(s)),
    }
}

/// The models of a list of declarations, in order.
pub open spec fn decl_views(ds: Seq<Decl>) -> Seq<DeclView>
    decreases ds,
{
    Seq::new(ds.len(), |i: int| if 0 <= i < ds.len() { decl_view(ds[i]) } else { arbitrary() })
}

/// The model of a statement.
pub open spec fn stmt_view(s: Stmt) -> StmtView
    decreases s,
{
    match s {
        Stmt::ExprStmt(e) => StmtView::ExprStmt(e@),
        Stmt::IfStmt(c, t, e) => StmtView::IfStmt(
            c@,
            Box::new(stmt_view(*t)),
            match e {
                Some(x) => Some(Box::new(stmt_view(*x))),
                None => None,
            },
        ),
        Stmt::WhileStmt(c, b) => StmtView::WhileStmt(c@, Box::new(stmt_view(*b))),
        Stmt::PrintStmt(e) => StmtView::PrintStmt(e@),
        Stmt::ReturnStmt(e) => StmtView::ReturnStmt(e@),
        Stmt::Block(b) => StmtView::Block(decl_views(b@)),
    }
}

/// Appending a declaration appends its model.
pub proof fn lemma_decl_views_push(ds: Seq<Decl>, d: Decl)
    ensures
        decl_views(ds.push(d)) == decl_views(ds).push(d@),
{
    assert(decl_views(ds.push(d)) =~= decl_views(ds).push(d@));
}

/// A copy of a list of declarations.
pub fn clone_decls(ds: &Vec<Decl>) -> (r: Vec<Decl>)
    ensures
        decl_views(r@) == decl_views(ds@),
    decreases ds, 0int,
{
    let mut r: Vec<Decl> = Vec::new();
    let mut i: usize = 0;
    while i < ds.len()
        invariant
            i <= ds@.len(),
            r@.len() == i,
            forall|j: int| 0 <= j < i ==> (#[trigger] r@[j])@ == ds@[j]@,
        decreases ds.len() - i,
    {
        r.push(ds[i].clone());
        i += 1;
    }
    assert(decl_views(r@) =~= decl_views(ds@));
    r
}

impl Clone for Decl {
    fn clone(&self) -> (r: Decl)
        ensures
            r@ == self@,
        decreases self, 1int,
    {
        match self {
            Decl::FunDecl(name, params, body) => Decl::FunDecl(
                name.clone(),
                crate::text::clone_names(params),
                clone_decls(body),
            ),
            Decl::VarDecl(name, e) => Decl::VarDecl(name.clone(), e.clone()),
            Decl::Stmt(s) => Decl::Stmt(s.clone()),
        }
    }
}

impl Clone for Stmt {
    fn clone(&self) -> (r: Stmt)
        ensures
            r@ == self@,
        decreases self, 1int,
    {
        match self {
            Stmt::ExprStmt(e) => Stmt::ExprStmt(e.clone()),
            Stmt::IfStmt(c, t, e) => Stmt::IfStmt(
                c.clone(),
                Box::new((&**t).clone()),
                match e {
                    Some(x) => Some(Box::new((&**x).clone())),
                    None => None,
                },
            ),
            Stmt::WhileStmt(c, b) => Stmt::WhileStmt(c.clone(), Box::new((&**b).clone())),
            Stmt::PrintStmt(e) => Stmt::PrintStmt(e.clone()),
            Stmt::ReturnStmt(e) => Stmt::ReturnStmt(e.clone()),
            Stmt::Block(b) => Stmt::Block(clone_decls(b)),
        }
    }
}

impl View for Decl {
    type V = DeclView;

    open spec fn view(&self) -> DeclView {
        decl_view(*self)
    }
}

impl View for Stmt {
    type V = StmtView;

    open spec fn view(&self) -> StmtView {
        stmt_view(*self)
    }
}

} // verus!
