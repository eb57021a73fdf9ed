//! What a program means: the evaluator as a transition system.
//!
//! A machine holds what it is working on (the control), the environment,
//! and a stack of frames, each of which says what to do with the next
//! value. [`step`] makes one transition. What the machine cannot do
//! itself it asks of its host: arithmetic on numbers, the conversion of a
//! number from and to decimal text, and printing. The host's reply comes
//! with the next step.
use vstd::prelude::*;
use crate::expr::{Boperator, ExprKind, ExprView, LiteralView, Loperator, Uoperator};
use crate::expr::stmt::{DeclView, StmtView};
use crate::interpret::env::{EnvView, assigned, declared, declares, enclosing, lookup, nested};
use crate::interpret::helpers::{Sum, compared, operands, same, sum, truth};
use crate::interpret::lox_type::{LoxType, count, type_of};
use crate::interpret::lox_value::{FnView, ValueView};
use crate::interpret::runtime_error::{FaultView, RuntimeErrorView, mismatch};
use crate::number::negated;
use crate::text::decimal;

verus! {

/// An arithmetic operation on two numbers.
#[derive(Debug, Clone, Copy, PartialEq, Eq, Structural)]
pub enum Arith {
    Add,
    Sub,
    Mul,
    Div,
}

/// What the machine asks of the host about numbers.
pub enum AskView {
    /// The number that a numeral writes.
    Parse(Seq<char>),
    /// The result of an operation on two numbers.
    Compute(Arith, u64, u64),
    /// The decimal text of a number.
    Format(u64),
}

/// What a step hands to the host.
pub enum RequestView {
    /// Nothing: step again.
    Continue,
    /// A question; the answer is due with the next step.
    Ask(AskView),
    /// A line to print.
    Print(Seq<char>),
    /// The program has ended.
    Done,
    /// The program has failed.
    Failed(RuntimeErrorView),
}

/// What the host hands to a step.
pub enum ReplyView {
    /// No question was open.
    Nothing,
    Number(u64),
    Text(Seq<char>),
}

/// What the machine is working on.
pub enum ControlView {
    /// An expression to evaluate.
    Evaluate(ExprView),
    /// A declaration to execute.
    Execute(DeclView),
    /// A value for the frame on top of the stack. A statement yields `nil`.
    Value(ValueView),
    /// A `return` on its way to the call it ends, with its line.
    Return(ValueView, u32),
    /// A question that the host has yet to answer.
    Await(AskView),
    /// Nothing more: the program has ended or failed.
    Stopped,
}

/// What to do with the next value.
pub enum FrameView {
    /// Assign it to the variable.
    Assign(Seq<char>),
    /// It is the callee of a call with these arguments, on this line,
    /// through this variable if the callee is one.
    Callee(Seq<ExprView>, u32, Option<Seq<char>>),
    /// It is the next argument of a call: the callee, the arguments
    /// evaluated so far, those still to evaluate.
    Argument(ValueView, Seq<ValueView>, Seq<ExprView>, u32, Option<Seq<char>>),
    /// Apply the unary operator to it.
    Unary(Uoperator, u32),
    /// It is the left operand of a logical operator with this right one.
    Logical(Loperator, ExprView),
    /// It is the left operand of a binary operator with this right one.
    Left(Boperator, ExprView, u32),
    /// It is the right operand of a binary operator with this left one.
    Right(Boperator, ValueView, u32),
    /// Print it.
    Print,
    /// Return it, from a `return` on this line.
    Return(u32),
    /// Declare the variable with it.
    Declare(Seq<char>),
    /// It is the condition of an `if` with these branches.
    Branch(StmtView, Option<StmtView>, u32),
    /// It is the condition of a `while` with this condition and body.
    Test(ExprView, StmtView),
    /// The body of a `while` has been executed: test the condition again.
    Repeat(ExprView, StmtView),
    /// Execute the declarations that follow.
    Rest(Seq<DeclView>),
    /// A block ends: leave its scope.
    Scope,
    /// A call ends: the caller's environment, the function called, and
    /// the variable it was called through, if any.
    Call(EnvView, FnView, Option<Seq<char>>),
}

/// The model of the machine. The top of the stack is its last frame.
pub struct MachineView {
    pub control: ControlView,
    pub env: EnvView,
    pub stack: Seq<FrameView>,
}

/// A transition: the next state, and what is handed to the host.
pub struct Outcome {
    pub machine: MachineView,
    pub request: RequestView,
}

/// The machine that is about to run `program` in `env`.
pub open spec fn start(program: Seq<DeclView>, env: EnvView) -> MachineView {
    MachineView {
        control: ControlView::Value(ValueView::Nil),
        env,
        stack: seq![FrameView::Rest(program)],
    }
}

/// A transition that asks nothing of the host.
pub open spec fn go(control: ControlView, env: EnvView, stack: Seq<FrameView>) -> Outcome {
    Outcome { machine: MachineView { control, env, stack }, request: RequestView::Continue }
}

/// A transition that stops the machine with a runtime error.
pub open spec fn fail(error: RuntimeErrorView, env: EnvView, stack: Seq<FrameView>) -> Outcome {
    Outcome {
        machine: MachineView { control: ControlView::Stopped, env, stack },
        request: RequestView::Failed(error),
    }
}

/// A transition that asks the host a question and waits for the answer.
pub open spec fn ask(question: AskView, env: EnvView, stack: Seq<FrameView>) -> Outcome {
    Outcome {
        machine: MachineView { control: ControlView::Await(question), env, stack },
        request: RequestView::Ask(question),
    }
}

/// The error for a variable that no scope declares.
pub open spec fn missing(name: Seq<char>, line: u32) -> RuntimeErrorView {
    RuntimeErrorView { kind: FaultView::Missing(name), line }
}

/// The environment around the innermost scope; the global scope is never
/// left.
pub open spec fn left(env: EnvView) -> EnvView {
    match enclosing(env) {
        Some(outer) => outer,
        None => env,
    }
}

/// The variable that a callee is, if it is one.
pub open spec fn callee_name(callee: ExprView) -> Option<Seq<char>> {
    match callee.kind {
        ExprKind::Variable(n) => Some(n),
        _ => None,
    }
}

/// The first step on an expression.
pub open spec fn evaluate(e: ExprView, env: EnvView, stack: Seq<FrameView>) -> Outcome {
    match e.kind {
        ExprKind::Literal(LiteralView::Num(numeral)) => ask(AskView::Parse(numeral), env, stack),
        ExprKind::Literal(LiteralView::Str(s)) => go(
            ControlView::Value(ValueView::Str(s)),
            env,
            stack,
        ),
        ExprKind::Literal(LiteralView::Bool(b)) => go(
            ControlView::Value(ValueView::Bool(b)),
            env,
            stack,
        ),
        ExprKind::Literal(LiteralView::Nil) => go(ControlView::Value(ValueView::Nil), env, stack),
        ExprKind::Variable(n) => match lookup(env, n) {
            Some(v) => go(ControlView::Value(v), env, stack),
            None => fail(missing(n, e.line), env, stack),
        },
        ExprKind::Assignment(n, value) => if declares(env, n) {
            go(ControlView::Evaluate(*value), env, stack.push(FrameView::Assign(n)))
        } else {
            fail(missing(n, e.line), env, stack)
        },
        ExprKind::Call(callee, arguments) => go(
            ControlView::Evaluate(*callee),
            env,
            stack.push(FrameView::Callee(arguments, e.line, callee_name(*callee))),
        ),
        ExprKind::Unary(op, operand) => go(
            ControlView::Evaluate(*operand),
            env,
            stack.push(FrameView::Unary(op, e.line)),
        ),
        ExprKind::Logical(op, l, r) => go(
            ControlView::Evaluate(*l),
            env,
            stack.push(FrameView::Logical(op, *r)),
        ),
        ExprKind::Binary(op, l, r) => go(
            ControlView::Evaluate(*l),
            env,
            stack.push(FrameView::Left(op, *r, e.line)),
        ),
        ExprKind::Grouping(inner) => go(ControlView::Evaluate(*inner), env, stack),
    }
}

/// The first step on a declaration.
pub open spec fn execute(d: DeclView, env: EnvView, stack: Seq<FrameView>) -> Outcome {
    match d {
        DeclView::FunDecl(name, params, body) => go(
            ControlView::Value(ValueView::Nil),
            declared(env, name, ValueView::Function(FnView { body, params, env })),
            stack,
        ),
        DeclView::VarDecl(name, value) => go(
            ControlView::Evaluate(value),
            env,
            stack.push(FrameView::Declare(name)),
        ),
        DeclView::Stmt(StmtView::ExprStmt(e)) => go(ControlView::Evaluate(e), env, stack),
        DeclView::Stmt(StmtView::PrintStmt(e)) => go(
            ControlView::Evaluate(e),
            env,
            stack.push(FrameView::Print),
        ),
        DeclView::Stmt(StmtView::ReturnStmt(e)) => go(
            ControlView::Evaluate(e),
            env,
            stack.push(FrameView::Return(e.line)),
        ),
        DeclView::Stmt(StmtView::IfStmt(c, t, e)) => go(
            ControlView::Evaluate(c),
            env,
            stack.push(
                FrameView::Branch(
                    *t,
                    match e {
                        Some(x) => Some(*x),
                        None => None,
                    },
                    c.line,
                ),
            ),
        ),
        DeclView::Stmt(StmtView::WhileStmt(c, b)) => go(
            ControlView::Evaluate(c),
            env,
            stack.push(FrameView::Test(c, *b)),
        ),
        DeclView::Stmt(StmtView::Block(items)) => go(
            ControlView::Value(ValueView::Nil),
            nested(env),
            stack.push(FrameView::Scope).push(FrameView::Rest(items)),
        ),
    }
}

/// The environment with the parameters from the `i`-th on declared, each
/// with the argument at its position.
pub open spec fn bound(env: EnvView, params: Seq<Seq<char>>, args: Seq<ValueView>, i: int) -> EnvView
    decreases params.len() - i,
{
    if i < 0 || i >= params.len() || i >= args.len() {
        env
    } else {
        bound(declared(env, params[i], args[i]), params, args, i + 1)
    }
}

/// The environment in which a function's body runs: a new scope inside
/// the function's own environment, with the parameters declared.
pub open spec fn entered(f: FnView, args: Seq<ValueView>) -> EnvView {
    bound(nested(f.env), f.params, args, 0)
}

/// Calls `callee` with the evaluated arguments. The callee must be a
/// function with as many parameters as there are arguments.
pub open spec fn invoke(
    callee: ValueView,
    args: Seq<ValueView>,
    line: u32,
    name: Option<Seq<char>>,
    env: EnvView,
    stack: Seq<FrameView>,
) -> Outcome {
    match callee {
        ValueView::Function(f) => if f.params.len() == args.len() {
            go(
                ControlView::Value(ValueView::Nil),
                entered(f, args),
                stack.push(FrameView::Call(env, f, name)).push(FrameView::Rest(f.body)),
            )
        } else {
            fail(
                RuntimeErrorView {
                    kind: FaultView::ArgPrmCountMismatch(count(args.len()), count(f.params.len())),
                    line,
                },
                env,
                stack,
            )
        },
        _ => fail(RuntimeErrorView { kind: FaultView::NotCallable(callee), line }, env, stack),
    }
}

/// Goes on with a call: evaluates the next argument, or makes the call
/// when none is left. Arguments are evaluated from left to right.
pub open spec fn proceed(
    callee: ValueView,
    done: Seq<ValueView>,
    rest: Seq<ExprView>,
    line: u32,
    name: Option<Seq<char>>,
    env: EnvView,
    stack: Seq<FrameView>,
) -> Outcome {
    if rest.len() == 0 {
        invoke(callee, done, line, name, env, stack)
    } else {
        go(
            ControlView::Evaluate(rest[0]),
            env,
            stack.push(FrameView::Argument(callee, done, rest.drop_first(), line, name)),
        )
    }
}

/// Ends a call with `result`. The environment that the body leaves
/// becomes the function's own; where the function was called through a
/// variable, the variable gets the function as it now is, so that the
/// next call through it sees what this one did.
pub open spec fn finish(
    caller: EnvView,
    f: FnView,
    name: Option<Seq<char>>,
    result: ValueView,
    env: EnvView,
    stack: Seq<FrameView>,
) -> Outcome {
    let after = FnView { body: f.body, params: f.params, env: left(env) };
    go(
        ControlView::Value(result),
        match name {
            Some(n) => assigned(caller, n, ValueView::Function(after)),
            None => caller,
        },
        stack,
    )
}

/// The operation that an arithmetic operator asks for.
pub open spec fn arith(op: Boperator) -> Arith {
    match op {
        Boperator::Plus => Arith::Add,
        Boperator::Minus => Arith::Sub,
        Boperator::Star => Arith::Mul,
        _ => Arith::Div,
    }
}

/// Applies a binary operator to its two operands.
pub open spec fn apply(op: Boperator, l: ValueView, r: ValueView, line: u32, env: EnvView, stack: Seq<FrameView>) -> Outcome {
    match op {
        Boperator::EqualEqual => go(ControlView::Value(ValueView::Bool(same(l, r))), env, stack),
        Boperator::BangEqual => go(ControlView::Value(ValueView::Bool(!same(l, r))), env, stack),
        Boperator::Plus => match sum(l, r, line) {
            Sum::Numbers(a, b) => ask(AskView::Compute(Arith::Add, a, b), env, stack),
            Sum::Text(s) => go(ControlView::Value(ValueView::Str(s)), env, stack),
            Sum::Fault(e) => fail(e, env, stack),
        },
        Boperator::Minus | Boperator::Star | Boperator::Slash => match operands(l, r, line) {
            Ok(p) => ask(AskView::Compute(arith(op), p.0, p.1), env, stack),
            Err(e) => fail(e, env, stack),
        },
        _ => match operands(l, r, line) {
            Ok(p) => go(ControlView::Value(ValueView::Bool(compared(op, p.0, p.1))), env, stack),
            Err(e) => fail(e, env, stack),
        },
    }
}

/// The display form of a value that is no number: a string as it is,
/// `true` or `false`, `nil`, and for a function its arity.
pub open spec fn shown(v: ValueView) -> Seq<char> {
    match v {
        ValueView::Str(s) => s,
        ValueView::Bool(b) => if b {
            "true"@
        } else {
            "false"@
        },
        ValueView::Nil => "nil"@,
        ValueView::Function(f) => "Function with arity "@ + decimal(count(f.params.len()) as nat),
        ValueView::Num(_) => Seq::empty(),
    }
}

/// Hands the value `v` to `frame`, which was on top of `stack`.
pub open spec fn resume(frame: FrameView, v: ValueView, env: EnvView, stack: Seq<FrameView>) -> Outcome {
    match frame {
        FrameView::Assign(n) => go(ControlView::Value(v), assigned(env, n, v), stack),
        FrameView::Callee(arguments, line, name) => proceed(
            v,
            Seq::empty(),
            arguments,
            line,
            name,
            env,
            stack,
        ),
        FrameView::Argument(callee, done, rest, line, name) => proceed(
            callee,
            done.push(v),
            rest,
            line,
            name,
            env,
            stack,
        ),
        FrameView::Unary(op, line) => match op {
            Uoperator::Minus => match v {
                ValueView::Num(n) => go(ControlView::Value(ValueView::Num(negated(n))), env, stack),
                _ => fail(mismatch(type_of(v), seq![LoxType::Num], line), env, stack),
            },
            Uoperator::Bang => go(ControlView::Value(ValueView::Bool(!truth(v))), env, stack),
        },
        FrameView::Logical(op, r) => if (op == Loperator::Or) == truth(v) {
            go(ControlView::Value(v), env, stack)
        } else {
            go(ControlView::Evaluate(r), env, stack)
        },
        FrameView::Left(op, r, line) => go(
            ControlView::Evaluate(r),
            env,
            stack.push(FrameView::Right(op, v, line)),
        ),
        FrameView::Right(op, l, line) => apply(op, l, v, line, env, stack),
        FrameView::Print => match v {
            ValueView::Num(n) => ask(AskView::Format(n), env, stack),
            _ => Outcome {
                machine: MachineView { control: ControlView::Value(ValueView::Nil), env, stack },
                request: RequestView::Print(shown(v)),
            },
        },
        FrameView::Return(line) => go(ControlView::Return(v, line), env, stack),
        FrameView::Declare(n) => go(ControlView::Value(ValueView::Nil), declared(env, n, v), stack),
        FrameView::Branch(t, e, line) => match v {
            ValueView::Bool(true) => go(ControlView::Execute(DeclView::Stmt(t)), env, stack),
            ValueView::Bool(false) => match e {
                Some(x) => go(ControlView::Execute(DeclView::Stmt(x)), env, stack),
                None => go(ControlView::Value(ValueView::Nil), env, stack),
            },
            _ => fail(mismatch(type_of(v), seq![LoxType::Bool], line), env, stack),
        },
        FrameView::Test(c, b) => match v {
            ValueView::Bool(true) => go(
                ControlView::Execute(DeclView::Stmt(b)),
                env,
                stack.push(FrameView::Repeat(c, b)),
            ),
            ValueView::Bool(false) => go(ControlView::Value(ValueView::Nil), env, stack),
            _ => fail(mismatch(type_of(v), seq![LoxType::Bool], c.line), env, stack),
        },
        FrameView::Repeat(c, b) => go(
            ControlView::Evaluate(c),
            env,
            stack.push(FrameView::Test(c, b)),
        ),
        FrameView::Rest(items) => if items.len() == 0 {
            go(ControlView::Value(ValueView::Nil), env, stack)
        } else {
            go(
                ControlView::Execute(items[0]),
                env,
                stack.push(FrameView::Rest(items.drop_first())),
            )
        },
        FrameView::Scope => go(ControlView::Value(v), left(env), stack),
        FrameView::Call(caller, f, name) => finish(caller, f, name, ValueView::Nil, env, stack),
    }
}

/// Takes a `return` of `v` past `frame`, which was on top of `stack`. A
/// block is left, a call is ended with `v`, anything else is dropped.
pub open spec fn unwind(frame: FrameView, v: ValueView, line: u32, env: EnvView, stack: Seq<FrameView>) -> Outcome {
    match frame {
        FrameView::Scope => go(ControlView::Return(v, line), left(env), stack),
        FrameView::Call(caller, f, name) => finish(caller, f, name, v, env, stack),
        _ => go(ControlView::Return(v, line), env, stack),
    }
}

/// Takes the host's reply to a question. A number answers a numeral or an
/// operation; a text answers a number to be printed, and is printed. On
/// any other reply the question is asked again.
pub open spec fn answer(question: AskView, reply: ReplyView, env: EnvView, stack: Seq<FrameView>) -> Outcome {
    match (question, reply) {
        (AskView::Parse(_), ReplyView::Number(n)) => go(
            ControlView::Value(ValueView::Num(n)),
            env,
            stack,
        ),
        (AskView::Compute(_, _, _), ReplyView::Number(n)) => go(
            ControlView::Value(ValueView::Num(n)),
            env,
            stack,
        ),
        (AskView::Format(_), ReplyView::Text(s)) => Outcome {
            machine: MachineView { control: ControlView::Value(ValueView::Nil), env, stack },
            request: RequestView::Print(s),
        },
        _ => ask(question, env, stack),
    }
}

/// One transition of the machine.
///
/// A value with nothing left on the stack ends the program. A `return`
/// with nothing left on the stack stood outside every function, which is
/// an error. A stopped machine stays stopped.
pub open spec fn step(m: MachineView, reply: ReplyView) -> Outcome {
    match m.control {
        ControlView::Stopped => Outcome { machine: m, request: RequestView::Done },
        ControlView::Await(question) => answer(question, reply, m.env, m.stack),
        ControlView::Evaluate(e) => evaluate(e, m.env, m.stack),
        ControlView::Execute(d) => execute(d, m.env, m.stack),
        ControlView::Value(v) => if m.stack.len() == 0 {
            Outcome {
                machine: MachineView { control: ControlView::Stopped, env: m.env, stack: m.stack },
                request: RequestView::Done,
            }
        } else {
            resume(m.stack.last(), v, m.env, m.stack.drop_last())
        },
        ControlView::Return(v, line) => if m.stack.len() == 0 {
            fail(RuntimeErrorView { kind: FaultView::NonFnReturn, line }, m.env, m.stack)
        } else {
            unwind(m.stack.last(), v, line, m.env, m.stack.drop_last())
        },
    }
}

/// Arithmetic on two numbers is never an error, whatever the numbers: the
/// machine asks the host for that operation on those operands, the left
/// one first, and goes on with the number that the host replies.
pub proof fn lemma_arithmetic(
    op: Boperator,
    a: u64,
    b: u64,
    line: u32,
    env: EnvView,
    stack: Seq<FrameView>,
    n: u64,
)
    requires
        op == Boperator::Plus || op == Boperator::Minus || op == Boperator::Star || op
            == Boperator::Slash,
    ensures
        apply(op, ValueView::Num(a), ValueView::Num(b), line, env, stack) == ask(
            AskView::Compute(arith(op), a, b),
            env,
            stack,
        ),
        step(
            apply(op, ValueView::Num(a), ValueView::Num(b), line, env, stack).machine,
            ReplyView::Number(n),
        ) == go(ControlView::Value(ValueView::Num(n)), env, stack),
{
}

/// `!` gives `true` for `nil` and `false`, and `false` for everything
/// else: for every number, zero included, every string, the empty one
/// included, and every function.
pub proof fn lemma_not(v: ValueView, line: u32, env: EnvView, stack: Seq<FrameView>)
    ensures
        resume(FrameView::Unary(Uoperator::Bang, line), v, env, stack) == go(
            ControlView::Value(ValueView::Bool(v == ValueView::Nil || v == ValueView::Bool(false))),
            env,
            stack,
        ),
{
}

/// Two strings are joined by `+`; a string and a number are not added,
/// whichever comes first.
pub proof fn lemma_plus(a: Seq<char>, b: Seq<char>, n: u64, line: u32, env: EnvView, stack: Seq<FrameView>)
    ensures
        apply(Boperator::Plus, ValueView::Str(a), ValueView::Str(b), line, env, stack) == go(
            ControlView::Value(ValueView::Str(a + b)),
            env,
            stack,
        ),
        apply(Boperator::Plus, ValueView::Num(n), ValueView::Str(a), line, env, stack) == fail(
            mismatch(LoxType::Str, seq![LoxType::Num], line),
            env,
            stack,
        ),
        apply(Boperator::Plus, ValueView::Str(a), ValueView::Num(n), line, env, stack) == fail(
            mismatch(LoxType::Num, seq![LoxType::Str], line),
            env,
            stack,
        ),
{
}

/// A stopped machine stays stopped, whatever the host replies.
pub proof fn lemma_stopped(m: MachineView, reply: ReplyView)
    requires
        m.control is Stopped,
    ensures
        step(m, reply).machine == m,
        step(m, reply).request is Done,
{
}

} // verus!
