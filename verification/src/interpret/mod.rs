//! The evaluator: a machine that runs a program one step at a time.
//!
//! [`execute`] sets a machine up on a program, [`Interpreter::step`] makes
//! one transition, and the host that drives it answers what a step asks:
//! arithmetic, the decimal text of numbers, printing. A program that never
//! ends is a machine that never stops; each step does.
use vstd::prelude::*;
use vstd::string::StringExecFns;
use crate::expr::{Boperator, Expr, ExprType, Literal, Loperator, Uoperator, expr_views};
use crate::expr::stmt::{Decl, Stmt, decl_views};
use crate::interpret::env::Env;
use crate::interpret::helpers::{binary_cmp_op, binary_num_op, equal, truthy, type_mismatch};
use crate::interpret::lox_type::{LoxCallee, LoxType};
use crate::interpret::lox_value::{LoxFn, LoxValue, lemma_parameters, value_views};
use crate::interpret::runtime_error::{LoxFunctionError, LoxRuntimeError, LoxRuntimeErrorType,
    LoxTypeError, LoxTypeMismatch, LoxVariableError};
use crate::interpret::semantics::{Arith, AskView, ControlView, FrameView, MachineView, Outcome,
    ReplyView, RequestView};
use crate::interpret::reachable::{lemma_start, lemma_step, orderly};
use crate::list::reversed;
use crate::numeral::Numeral;
use crate::number::negate;

pub mod env;
pub mod lox_type;
pub mod lox_value;
pub mod runtime_error;
pub mod helpers;
pub mod semantics;
pub mod reachable;
pub mod display;

verus! {

/// What the machine asks of the host about numbers.
#[derive(Debug)]
pub enum Ask {
    /// The number that a numeral writes.
    Parse(Numeral),
    /// The result of an operation on two numbers.
    Compute(Arith, u64, u64),
    /// The decimal text of a number.
    Format(u64),
}

/// What a step hands to the host.
#[derive(Debug)]
pub enum Request {
    /// Nothing: step again.
    Continue,
    /// A question; the answer is due with the next step.
    Ask(Ask),
    /// A line to print.
    Print(String),
    /// The program has ended.
    Done,
    /// The program has failed.
    Failed(LoxRuntimeError),
}

/// What the host hands to a step.
#[derive(Debug)]
pub enum Reply {
    /// No question was open.
    Nothing,
    Number(u64),
    Text(String),
}

/// What the machine is working on.
#[derive(Debug)]
pub enum Control {
    Evaluate(Expr),
    Execute(Decl),
    Value(LoxValue),
    Return(LoxValue, u32),
    Await(Ask),
    Stopped,
}

/// What to do with the next value. Expressions and declarations that are
/// still to come are kept last first.
#[derive(Debug)]
pub enum Frame {
    Assign(String),
    Callee(Vec<Expr>, u32, Option<String>),
    Argument(LoxValue, Vec<LoxValue>, Vec<Expr>, u32, Option<String>),
    Unary(Uoperator, u32),
    Logical(Loperator, Expr),
    Left(Boperator, Expr, u32),
    Right(Boperator, LoxValue, u32),
    Print,
    Return(u32),
    Declare(String),
    Branch(Stmt, Option<Stmt>, u32),
    Test(Expr, Stmt),
    Repeat(Expr, Stmt),
    Rest(Vec<Decl>),
    Scope,
    Call(Env, LoxFn, Option<String>),
}

/// The machine: what it is working on, the environment, and the stack of
/// frames.
#[derive(Debug)]
pub struct Interpreter {
    control: Control,
    env: Env,
    stack: Vec<Frame>,
}

impl View for Ask {
    type V = AskView;

    open spec fn view(&self) -> AskView {
        match self {
            Ask::Parse(s) => AskView::Parse(s@),
            Ask::Compute(op, a, b) => AskView::Compute(*op, *a, *b),
            Ask::Format(n) => AskView::Format(*n),
        }
    }
}

impl View for Request {
    type V = RequestView;

    open spec fn view(&self) -> RequestView {
        match self {
            Request::Continue => RequestView::Continue,
            Request::Ask(a) => RequestView::Ask(a@),
            Request::Print(s) => RequestView::Print(s@),
            Request::Done => RequestView::Done,
            Request::Failed(e) => RequestView::Failed(e@),
        }
    }
}

impl View for Reply {
    type V = ReplyView;

    open spec fn view(&self) -> ReplyView {
        match self {
            Reply::Nothing => ReplyView::Nothing,
            Reply::Number(n) => ReplyView::Number(*n),
            Reply::Text(s) => ReplyView::Text(s@),
        }
    }
}

/// The names of an optional variable.
pub open spec fn name_view(name: Option<String>) -> Option<Seq<char>> {
    match name {
        Some(n) => Some(n@),
        None => None,
    }
}

/// The expressions still to come, first first.
pub open spec fn pending_exprs(kept: Seq<Expr>) -> Seq<crate::expr::ExprView> {
    expr_views(kept).reverse()
}

/// The declarations still to come, first first.
pub open spec fn pending_decls(kept: Seq<Decl>) -> Seq<crate::expr::stmt::DeclView> {
    decl_views(kept).reverse()
}

impl View for Control {
    type V = ControlView;

    open spec fn view(&self) -> ControlView {
        match self {
            Control::Evaluate(e) => ControlView::Evaluate(e@),
            Control::Execute(d) => ControlView::Execute(d@),
            Control::Value(v) => ControlView::Value(v@),
            Control::Return(v, line) => ControlView::Return(v@, *line),
            Control::Await(a) => ControlView::Await(a@),
            Control::Stopped => ControlView::Stopped,
        }
    }
}

impl View for Frame {
    type V = FrameView;

    open spec fn view(&self) -> FrameView {
        match self {
            Frame::Assign(n) => FrameView::Assign(n@),
            Frame::Callee(rest, line, name) => FrameView::Callee(
                pending_exprs(rest@),
                *line,
                name_view(*name),
            ),
            Frame::Argument(callee, done, rest, line, name) => FrameView::Argument(
                callee@,
                value_views(done@),
                pending_exprs(rest@),
                *line,
                name_view(*name),
            ),
            Frame::Unary(op, line) => FrameView::Unary(*op, *line),
            Frame::Logical(op, r) => FrameView::Logical(*op, r@),
            Frame::Left(op, r, line) => FrameView::Left(*op, r@, *line),
            Frame::Right(op, l, line) => FrameView::Right(*op, l@, *line),
            Frame::Print => FrameView::Print,
            Frame::Return(line) => FrameView::Return(*line),
            Frame::Declare(n) => FrameView::Declare(n@),
            Frame::Branch(t, e, line) => FrameView::Branch(
                t@,
                match e {
                    Some(x) => Some(x@),
                    None => None,
                },
                *line,
            ),
            Frame::Test(c, b) => FrameView::Test(c@, b@),
            Frame::Repeat(c, b) => FrameView::Repeat(c@, b@),
            Frame::Rest(rest) => FrameView::Rest(pending_decls(rest@)),
            Frame::Scope => FrameView::Scope,
            Frame::Call(caller, f, name) => FrameView::Call(caller@, f@, name_view(*name)),
        }
    }
}

/// The models of the frames of a stack, bottom first.
pub open spec fn frames(stack: Seq<Frame>) -> Seq<FrameView> {
    stack.map_values(|f: Frame| f@)
}

impl View for Interpreter {
    type V = MachineView;

    closed spec fn view(&self) -> MachineView {
        MachineView { control: self.control@, env: self.env@, stack: frames(self.stack@) }
    }
}

/// A step's result as a transition of the model.
pub open spec fn outcome(r: (Interpreter, Request)) -> Outcome {
    Outcome { machine: r.0@, request: r.1@ }
}

impl Clone for Ask {
    fn clone(&self) -> (r: Ask)
        ensures
            r@ == self@,
    {
        match self {
            Ask::Parse(s) => Ask::Parse(s.clone()),
            Ask::Compute(op, a, b) => Ask::Compute(*op, *a, *b),
            Ask::Format(n) => Ask::Format(*n),
        }
    }
}

fn push(stack: Vec<Frame>, frame: Frame) -> (r: Vec<Frame>)
    ensures
        frames(r@) == frames(stack@).push(frame@),
{
    let mut grown = stack;
    grown.push(frame);
    assert(frames(grown@) =~= frames(stack@).push(frame@));
    grown
}

/// Takes the top frame off the stack, if there is one.
fn pop(stack: Vec<Frame>) -> (r: (Option<Frame>, Vec<Frame>))
    ensures
        match r.0 {
            Some(f) => frames(stack@).len() > 0 && f@ == frames(stack@).last() && frames(r.1@)
                == frames(stack@).drop_last(),
            None => frames(stack@).len() == 0 && r.1@ == stack@,
        },
{
    let mut rest = stack;
    let top = rest.pop();
    assert(top is Some ==> frames(rest@) =~= frames(stack@).drop_last());
    (top, rest)
}

/// Keeps expressions that are still to come.
fn keep_exprs(es: Vec<Expr>) -> (r: Vec<Expr>)
    ensures
        pending_exprs(r@) == expr_views(es@),
{
    let r = reversed(es);
    assert(pending_exprs(r@) =~= expr_views(es@));
    r
}

/// Keeps declarations that are still to come.
fn keep_decls(ds: Vec<Decl>) -> (r: Vec<Decl>)
    ensures
        pending_decls(r@) == decl_views(ds@),
{
    let r = reversed(ds);
    assert(pending_decls(r@) =~= decl_views(ds@));
    r
}

/// Takes the next of the expressions still to come.
fn next_expr(kept: Vec<Expr>) -> (r: (Option<Expr>, Vec<Expr>))
    ensures
        match r.0 {
            Some(e) => pending_exprs(kept@).len() > 0 && e@ == pending_exprs(kept@)[0]
                && pending_exprs(r.1@) == pending_exprs(kept@).drop_first(),
            None => pending_exprs(kept@).len() == 0,
        },
{
    let mut rest = kept;
    let next = rest.pop();
    assert(next is Some ==> pending_exprs(rest@) =~= pending_exprs(kept@).drop_first());
    (next, rest)
}

/// Takes the next of the declarations still to come.
fn next_decl(kept: Vec<Decl>) -> (r: (Option<Decl>, Vec<Decl>))
    ensures
        match r.0 {
            Some(d) => pending_decls(kept@).len() > 0 && d@ == pending_decls(kept@)[0]
                && pending_decls(r.1@) == pending_decls(kept@).drop_first(),
            None => pending_decls(kept@).len() == 0,
        },
{
    let mut rest = kept;
    let next = rest.pop();
    assert(next is Some ==> pending_decls(rest@) =~= pending_decls(kept@).drop_first());
    (next, rest)
}

fn go(control: Control, env: Env, stack: Vec<Frame>) -> (r: (Interpreter, Request))
    ensures
        outcome(r) == semantics::go(control@, env@, frames(stack@)),
{
    (Interpreter { control, env, stack }, Request::Continue)
}

fn fail(error: LoxRuntimeError, env: Env, stack: Vec<Frame>) -> (r: (Interpreter, Request))
    ensures
        outcome(r) == semantics::fail(error@, env@, frames(stack@)),
{
    (Interpreter { control: Control::Stopped, env, stack }, Request::Failed(error))
}

fn ask(question: Ask, env: Env, stack: Vec<Frame>) -> (r: (Interpreter, Request))
    ensures
        outcome(r) == semantics::ask(question@, env@, frames(stack@)),
{
    let again = question.clone();
    (Interpreter { control: Control::Await(question), env, stack }, Request::Ask(again))
}

fn print(text: String, env: Env, stack: Vec<Frame>) -> (r: (Interpreter, Request))
    ensures
        outcome(r) == (Outcome {
            machine: MachineView {
                control: ControlView::Value(crate::interpret::lox_value::ValueView::Nil),
                env: env@,
                stack: frames(stack@),
            },
            request: RequestView::Print(text@),
        }),
{
    (Interpreter { control: Control::Value(LoxValue::Nil), env, stack }, Request::Print(text))
}

fn missing(name: String, line: u32) -> (e: LoxRuntimeError)
    ensures
        e@ == semantics::missing(name@, line),
{
    LoxRuntimeError::new(LoxRuntimeErrorType::VariableError(LoxVariableError::Missing(name)), line)
}

/// The first step on an expression.
fn evaluate(value: Expr, env: Env, stack: Vec<Frame>) -> (r: (Interpreter, Request))
    ensures
        outcome(r) == semantics::evaluate(value@, env@, frames(stack@)),
{
    let line = value.line;
    match value.exprType {
        ExprType::Literal(l) => match l {
            Literal::Num(numeral) => ask(Ask::Parse(numeral), env, stack),
            Literal::Str(s) => go(Control::Value(LoxValue::Str(s)), env, stack),
            Literal::Bool(b) => go(Control::Value(LoxValue::Bool(b)), env, stack),
            Literal::Nil => go(Control::Value(LoxValue::Nil), env, stack),
        },
        ExprType::Variable(n) => {
            let found = match env.get(&n) {
                Some(v) => Some(v.clone()),
                None => None,
            };
            match found {
                Some(v) => go(Control::Value(v), env, stack),
                None => fail(missing(n, line), env, stack),
            }
        },
        ExprType::Assignment(a) => {
            if env.contains_key(&a.id) {
                go(Control::Evaluate(*a.expr), env, push(stack, Frame::Assign(a.id)))
            } else {
                fail(missing(a.id, line), env, stack)
            }
        },
        ExprType::Call(c) => {
            let name = match &c.callee.exprType {
                ExprType::Variable(n) => Some(n.clone()),
                _ => None,
            };
            let rest = keep_exprs(c.arguments);
            go(Control::Evaluate(*c.callee), env, push(stack, Frame::Callee(rest, line, name)))
        },
        ExprType::Grouping(g) => go(Control::Evaluate(*g.expr), env, stack),
        ExprType::Unary(u) => go(
            Control::Evaluate(*u.expr),
            env,
            push(stack, Frame::Unary(u.operator, line)),
        ),
        ExprType::Logical(l) => go(
            Control::Evaluate(*l.lexpr),
            env,
            push(stack, Frame::Logical(l.operator, *l.rexpr)),
        ),
        ExprType::Binary(b) => go(
            Control::Evaluate(*b.lexpr),
            env,
            push(stack, Frame::Left(b.operator, *b.rexpr, line)),
        ),
    }
}

/// The first step on a declaration.
fn perform(decl: Decl, env: Env, stack: Vec<Frame>) -> (r: (Interpreter, Request))
    ensures
        outcome(r) == semantics::execute(decl@, env@, frames(stack@)),
{
    match decl {
        Decl::FunDecl(name, arguments, body) => {
            let mut env = env;
            let f = LoxValue::Function(LoxFn::new(name.clone(), body, arguments, env.clone()));
            env.decl(name, f);
            go(Control::Value(LoxValue::Nil), env, stack)
        },
        Decl::VarDecl(name, content) => go(
            Control::Evaluate(content),
            env,
            push(stack, Frame::Declare(name)),
        ),
        Decl::Stmt(stmt) => match stmt {
            Stmt::ExprStmt(e) => go(Control::Evaluate(e), env, stack),
            Stmt::PrintStmt(e) => go(Control::Evaluate(e), env, push(stack, Frame::Print)),
            Stmt::ReturnStmt(e) => {
                let line = e.line;
                go(Control::Evaluate(e), env, push(stack, Frame::Return(line)))
            },
            Stmt::IfStmt(c, i, e) => {
                let line = c.line;
                let otherwise = match e {
                    Some(x) => Some(*x),
                    None => None,
                };
                go(Control::Evaluate(c), env, push(stack, Frame::Branch(*i, otherwise, line)))
            },
            Stmt::WhileStmt(c, b) => {
                let condition = c.clone();
                go(Control::Evaluate(condition), env, push(stack, Frame::Test(c, *b)))
            },
            Stmt::Block(b) => {
                let rest = keep_decls(b);
                go(
                    Control::Value(LoxValue::Nil),
                    Env::new(env),
                    push(push(stack, Frame::Scope), Frame::Rest(rest)),
                )
            },
        },
    }
}

/// Calls `callee` with the evaluated arguments.
fn invoke(
    callee: LoxValue,
    arguments: Vec<LoxValue>,
    line: u32,
    name: Option<String>,
    env: Env,
    stack: Vec<Frame>,
) -> (r: (Interpreter, Request))
    ensures
        outcome(r) == semantics::invoke(
            callee@,
            value_views(arguments@),
            line,
            name_view(name),
            env@,
            frames(stack@),
        ),
{
    match callee {
        LoxValue::Function(f) => {
            proof {
                lemma_parameters(f);
            }
            if f.parameters().len() == arguments.len() {
                let local = f.call(arguments);
                let body = keep_decls(crate::expr::stmt::clone_decls(f.body()));
                go(
                    Control::Value(LoxValue::Nil),
                    local,
                    push(push(stack, Frame::Call(env, f, name)), Frame::Rest(body)),
                )
            } else {
                let given = if arguments.len() > u32::MAX as usize {
                    u32::MAX
                } else {
                    arguments.len() as u32
                };
                fail(
                    LoxRuntimeError::new(
                        LoxRuntimeErrorType::FunctionError(
                            LoxFunctionError::ArgPrmCountMismatch(given, f.arity()),
                        ),
                        line,
                    ),
                    env,
                    stack,
                )
            }
        },
        other => fail(
            LoxRuntimeError::new(
                LoxRuntimeErrorType::FunctionError(LoxFunctionError::NotCallable(other)),
                line,
            ),
            env,
            stack,
        ),
    }
}

/// Goes on with a call: the next argument, or the call itself.
fn proceed(
    callee: LoxValue,
    done: Vec<LoxValue>,
    rest: Vec<Expr>,
    line: u32,
    name: Option<String>,
    env: Env,
    stack: Vec<Frame>,
) -> (r: (Interpreter, Request))
    ensures
        outcome(r) == semantics::proceed(
            callee@,
            value_views(done@),
            pending_exprs(rest@),
            line,
            name_view(name),
            env@,
            frames(stack@),
        ),
{
    let (next, rest) = next_expr(rest);
    match next {
        None => invoke(callee, done, line, name, env, stack),
        Some(argument) => go(
            Control::Evaluate(argument),
            env,
            push(stack, Frame::Argument(callee, done, rest, line, name)),
        ),
    }
}

/// Ends a call with `result`.
fn finish(
    caller: Env,
    function: LoxFn,
    name: Option<String>,
    result: LoxValue,
    env: Env,
    stack: Vec<Frame>,
) -> (r: (Interpreter, Request))
    ensures
        outcome(r) == semantics::finish(
            caller@,
            function@,
            name_view(name),
            result@,
            env@,
            frames(stack@),
        ),
{
    let after = function.rebind(env.leave());
    let mut caller = caller;
    match name {
        Some(n) => {
            caller.assign(n, LoxValue::Function(after));
        },
        None => {},
    }
    go(Control::Value(result), caller, stack)
}

fn arith(op: Boperator) -> (a: Arith)
    ensures
        a == semantics::arith(op),
{
    match op {
        Boperator::Plus => Arith::Add,
        Boperator::Minus => Arith::Sub,
        Boperator::Star => Arith::Mul,
        _ => Arith::Div,
    }
}

/// The error for an operand of `+` that is neither a number nor a string.
fn sum_mismatch(x: &LoxValue, line: u32) -> (e: LoxRuntimeError)
    ensures
        e@ == crate::interpret::runtime_error::mismatch(
            crate::interpret::lox_type::type_of(x@),
            seq![LoxType::Num, LoxType::Str],
            line,
        ),
{
    let mut expected: Vec<LoxType> = Vec::new();
    expected.push(LoxType::Num);
    expected.push(LoxType::Str);
    assert(expected@ =~= seq![LoxType::Num, LoxType::Str]);
    LoxRuntimeError::new(
        LoxRuntimeErrorType::TypeError(
            LoxTypeError::Mismatch(LoxTypeMismatch::newMany(LoxType::of(x), expected)),
        ),
        line,
    )
}

/// Applies `+`.
fn plus(l: LoxValue, r: LoxValue, line: u32, env: Env, stack: Vec<Frame>) -> (res: (Interpreter, Request))
    ensures
        outcome(res) == semantics::apply(Boperator::Plus, l@, r@, line, env@, frames(stack@)),
{
    match (l, r) {
        (LoxValue::Num(a), LoxValue::Num(b)) => ask(Ask::Compute(Arith::Add, a, b), env, stack),
        (LoxValue::Str(a), LoxValue::Str(b)) => go(
            Control::Value(LoxValue::Str(a.concat(b.as_str()))),
            env,
            stack,
        ),
        (LoxValue::Num(_), x) => fail(type_mismatch(&x, LoxType::Num, line), env, stack),
        (LoxValue::Str(_), x) => fail(type_mismatch(&x, LoxType::Str, line), env, stack),
        (x, LoxValue::Num(_)) => fail(type_mismatch(&x, LoxType::Num, line), env, stack),
        (x, LoxValue::Str(_)) => fail(type_mismatch(&x, LoxType::Str, line), env, stack),
        (x, _) => fail(sum_mismatch(&x, line), env, stack),
    }
}

/// Applies a binary operator to its two operands.
fn apply(op: Boperator, l: LoxValue, r: LoxValue, line: u32, env: Env, stack: Vec<Frame>) -> (res: (
    Interpreter,
    Request,
))
    ensures
        outcome(res) == semantics::apply(op, l@, r@, line, env@, frames(stack@)),
{
    match op {
        Boperator::EqualEqual => go(Control::Value(LoxValue::Bool(equal(&l, &r))), env, stack),
        Boperator::BangEqual => go(Control::Value(LoxValue::Bool(!equal(&l, &r))), env, stack),
        Boperator::Plus => plus(l, r, line, env, stack),
        Boperator::Minus | Boperator::Star | Boperator::Slash => match binary_num_op(&l, &r, line) {
            Ok((a, b)) => ask(Ask::Compute(arith(op), a, b), env, stack),
            Err(e) => fail(e, env, stack),
        },
        _ => match binary_cmp_op(&l, &r, op, line) {
            Ok(v) => go(Control::Value(v), env, stack),
            Err(e) => fail(e, env, stack),
        },
    }
}

/// Hands the value `v` to `frame`, which was on top of `stack`.
fn resume(frame: Frame, v: LoxValue, env: Env, stack: Vec<Frame>) -> (r: (Interpreter, Request))
    ensures
        outcome(r) == semantics::resume(frame@, v@, env@, frames(stack@)),
{
    match frame {
        Frame::Assign(n) => {
            let mut env = env;
            env.assign(n, v.clone());
            go(Control::Value(v), env, stack)
        },
        Frame::Callee(rest, line, name) => {
            let done: Vec<LoxValue> = Vec::new();
            assert(value_views(done@) =~= Seq::empty());
            proceed(v, done, rest, line, name, env, stack)
        },
        Frame::Argument(callee, done, rest, line, name) => {
            let mut done = done;
            let ghost before = value_views(done@);
            done.push(v);
            assert(value_views(done@) =~= before.push(v@));
            proceed(callee, done, rest, line, name, env, stack)
        },
        Frame::Unary(op, line) => match op {
            Uoperator::Minus => match v {
                LoxValue::Num(n) => go(Control::Value(LoxValue::Num(negate(n))), env, stack),
                other => fail(type_mismatch(&other, LoxType::Num, line), env, stack),
            },
            Uoperator::Bang => go(Control::Value(LoxValue::Bool(!truthy(&v))), env, stack),
        },
        Frame::Logical(op, r) => {
            let decided = match op {
                Loperator::Or => truthy(&v),
                Loperator::And => !truthy(&v),
            };
            if decided {
                go(Control::Value(v), env, stack)
            } else {
                go(Control::Evaluate(r), env, stack)
            }
        },
        Frame::Left(op, r, line) => go(Control::Evaluate(r), env, push(stack, Frame::Right(op, v, line))),
        Frame::Right(op, l, line) => apply(op, l, v, line, env, stack),
        Frame::Print => match v.to_string() {
            Some(text) => print(text, env, stack),
            None => match v {
                LoxValue::Num(n) => ask(Ask::Format(n), env, stack),
                _ => go(Control::Value(LoxValue::Nil), env, stack),
            },
        },
        Frame::Return(line) => go(Control::Return(v, line), env, stack),
        Frame::Declare(n) => {
            let mut env = env;
            env.decl(n, v);
            go(Control::Value(LoxValue::Nil), env, stack)
        },
        Frame::Branch(t, e, line) => match v {
            LoxValue::Bool(true) => go(Control::Execute(Decl::Stmt(t)), env, stack),
            LoxValue::Bool(false) => match e {
                Some(x) => go(Control::Execute(Decl::Stmt(x)), env, stack),
                None => go(Control::Value(LoxValue::Nil), env, stack),
            },
            other => fail(type_mismatch(&other, LoxType::Bool, line), env, stack),
        },
        Frame::Test(c, b) => match v {
            LoxValue::Bool(true) => {
                let body = b.clone();
                go(Control::Execute(Decl::Stmt(body)), env, push(stack, Frame::Repeat(c, b)))
            },
            LoxValue::Bool(false) => go(Control::Value(LoxValue::Nil), env, stack),
            other => fail(type_mismatch(&other, LoxType::Bool, c.line), env, stack),
        },
        Frame::Repeat(c, b) => {
            let condition = c.clone();
            go(Control::Evaluate(condition), env, push(stack, Frame::Test(c, b)))
        },
        Frame::Rest(rest) => {
            let (next, rest) = next_decl(rest);
            match next {
                None => go(Control::Value(LoxValue::Nil), env, stack),
                Some(d) => go(Control::Execute(d), env, push(stack, Frame::Rest(rest))),
            }
        },
        Frame::Scope => go(Control::Value(v), env.leave(), stack),
        Frame::Call(caller, f, name) => finish(caller, f, name, LoxValue::Nil, env, stack),
    }
}

/// Takes a `return` of `v` past `frame`, which was on top of `stack`.
fn unwind(frame: Frame, v: LoxValue, line: u32, env: Env, stack: Vec<Frame>) -> (r: (Interpreter, Request))
    ensures
        outcome(r) == semantics::unwind(frame@, v@, line, env@, frames(stack@)),
{
    match frame {
        Frame::Scope => go(Control::Return(v, line), env.leave(), stack),
        Frame::Call(caller, f, name) => finish(caller, f, name, v, env, stack),
        _ => go(Control::Return(v, line), env, stack),
    }
}

/// Takes the host's reply to a question.
fn answer(question: Ask, reply: Reply, env: Env, stack: Vec<Frame>) -> (r: (Interpreter, Request))
    ensures
        outcome(r) == semantics::answer(question@, reply@, env@, frames(stack@)),
{
    match (question, reply) {
        (Ask::Parse(_), Reply::Number(n)) => go(Control::Value(LoxValue::Num(n)), env, stack),
        (Ask::Compute(_, _, _), Reply::Number(n)) => go(
            Control::Value(LoxValue::Num(n)),
            env,
            stack,
        ),
        (Ask::Format(_), Reply::Text(s)) => print(s, env, stack),
        (question, _) => ask(question, env, stack),
    }
}

/// Sets a machine up to run `program` in `env`.
pub fn execute(program: Vec<Decl>, env: Env) -> (m: Interpreter)
    ensures
        m@ == semantics::start(decl_views(program@), env@),
        orderly(m@),
{
    proof {
        crate::interpret::env::lemma_sound_env(env);
        lemma_start(decl_views(program@), env@);
    }
    let rest = keep_decls(program);
    let stack = push(Vec::new(), Frame::Rest(rest));
    let m = Interpreter { control: Control::Value(LoxValue::Nil), env, stack };
    assert(m@.stack =~= semantics::start(decl_views(program@), env@).stack);
    m
}

impl Interpreter {
    /// Makes one transition. `reply` answers the question of the step
    /// before, if that step asked one.
    pub fn step(self, reply: Reply) -> (r: (Interpreter, Request))
        ensures
            outcome(r) == semantics::step(self@, reply@),
            orderly(self@) ==> orderly(r.0@),
    {
        proof {
            if orderly(self@) {
                lemma_step(self@, reply@);
            }
        }
        let Interpreter { control, env, stack } = self;
        match control {
            Control::Stopped => (Interpreter { control: Control::Stopped, env, stack }, Request::Done),
            Control::Await(question) => answer(question, reply, env, stack),
            Control::Evaluate(e) => evaluate(e, env, stack),
            Control::Execute(d) => perform(d, env, stack),
            Control::Value(v) => {
                let (top, stack) = pop(stack);
                match top {
                    None => (Interpreter { control: Control::Stopped, env, stack }, Request::Done),
                    Some(frame) => resume(frame, v, env, stack),
                }
            },
            Control::Return(v, line) => {
                let (top, stack) = pop(stack);
                match top {
                    None => fail(
                        LoxRuntimeError::new(
                            LoxRuntimeErrorType::FunctionError(LoxFunctionError::NonFnReturn),
                            line,
                        ),
                        env,
                        stack,
                    ),
                    Some(frame) => unwind(frame, v, line, env, stack),
                }
            },
        }
    }

    /// Whether the machine has stopped: the program has ended or failed.
    pub fn stopped(&self) -> (r: bool)
        ensures
            r == (self@.control is Stopped),
    {
        match self.control {
            Control::Stopped => true,
            _ => false,
        }
    }

    /// Gives up the machine for its environment, as it stands.
    pub fn end(self) -> (env: Env)
        ensures
            env@ == self@.env,
    {
        self.env
    }
}

} // verus!
