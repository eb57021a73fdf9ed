//! What holds of every state that a machine reaches.
//!
//! Every environment in the machine has its global scope, and scopes are
//! ended as they were begun: under each frame that ends a block or a call
//! there is a scope to end. So the machine never leaves the global scope.
use vstd::prelude::*;
use crate::interpret::env::{EnvView, assigned, declared, enclosing, lemma_scope_of, lookup, nested,
    proper, target};
use crate::interpret::lox_value::{FnView, ValueView};
use crate::interpret::semantics::{ControlView, FrameView, MachineView, ReplyView, bound, entered,
    evaluate, execute, finish, invoke, left, proceed, resume, start, step, unwind};

verus! {

/// Whether every function in the value has a sound environment.
pub open spec fn sound(v: ValueView) -> bool
    decreases v,
{
    match v {
        ValueView::Function(f) => sound_env(f.env),
        _ => true,
    }
}

/// Whether the environment has its global scope, and each of its scopes
/// holds finitely many variables and sound values only.
pub open spec fn sound_env(e: EnvView) -> bool
    decreases e,
{
    &&& proper(e)
    &&& forall|i: int| 0 <= i < e.scopes.len() ==> (#[trigger] e.scopes[i]).dom().finite()
    &&& forall|i: int, k: Seq<char>|
        0 <= i < e.scopes.len() && e.scopes[i].dom().finite() && (
        #[trigger] e.scopes[i]).contains_key(k) ==> sound(#[trigger] e.scopes[i][k])
}

/// Whether the values in the frame are sound.
pub open spec fn sound_frame(f: FrameView) -> bool {
    match f {
        FrameView::Argument(callee, done, _, _, _) => sound(callee) && forall|i: int|
            0 <= i < done.len() ==> sound(#[trigger] done[i]),
        FrameView::Right(_, l, _) => sound(l),
        FrameView::Call(caller, f, _) => sound_env(caller) && sound_env(f.env),
        _ => true,
    }
}

/// Whether an environment of `depth` scopes has a scope for every frame
/// of the stack that ends one: a block ends one scope, and a call ends
/// the scope of its parameters and goes back to the caller's environment.
pub open spec fn owed(stack: Seq<FrameView>, depth: int) -> bool
    decreases stack.len(),
{
    if stack.len() == 0 {
        depth >= 1
    } else {
        match stack.last() {
            FrameView::Scope => depth >= 2 && owed(stack.drop_last(), depth - 1),
            FrameView::Call(caller, _, _) => depth >= 2 && owed(
                stack.drop_last(),
                caller.scopes.len() as int,
            ),
            _ => owed(stack.drop_last(), depth),
        }
    }
}

/// What holds of every state that a machine reaches.
pub open spec fn orderly(m: MachineView) -> bool {
    &&& sound_env(m.env)
    &&& m.control is Stopped || {
        &&& owed(m.stack, m.env.scopes.len() as int)
        &&& forall|i: int| 0 <= i < m.stack.len() ==> sound_frame(#[trigger] m.stack[i])
        &&& match m.control {
            ControlView::Value(v) => sound(v),
            ControlView::Return(v, _) => sound(v),
            _ => true,
        }
    }
}

/// Whether every frame of the stack is sound.
pub open spec fn sound_stack(stack: Seq<FrameView>) -> bool {
    forall|i: int| 0 <= i < stack.len() ==> sound_frame(#[trigger] stack[i])
}

/// Whether an environment and a stack go together: both are sound, and
/// the environment has the scopes that the stack will end.
pub open spec fn settled(env: EnvView, stack: Seq<FrameView>) -> bool {
    sound_env(env) && sound_stack(stack) && owed(stack, env.scopes.len() as int)
}

proof fn lemma_push(stack: Seq<FrameView>, f: FrameView, depth: int)
    ensures
        owed(stack.push(f), depth) == match f {
            FrameView::Scope => depth >= 2 && owed(stack, depth - 1),
            FrameView::Call(caller, _, _) => depth >= 2 && owed(stack, caller.scopes.len() as int),
            _ => owed(stack, depth),
        },
        sound_stack(stack) && sound_frame(f) ==> sound_stack(stack.push(f)),
{
    assert(stack.push(f).drop_last() =~= stack);
    assert(stack.push(f).last() == f);
}

proof fn lemma_pop(stack: Seq<FrameView>)
    requires
        stack.len() > 0,
        sound_stack(stack),
    ensures
        sound_stack(stack.drop_last()),
        sound_frame(stack.last()),
        stack == stack.drop_last().push(stack.last()),
{
    assert(stack =~= stack.drop_last().push(stack.last()));
    assert forall|i: int| 0 <= i < stack.drop_last().len() implies sound_frame(
        #[trigger] stack.drop_last()[i],
    ) by {
        assert(stack.drop_last()[i] == stack[i]);
    }
}

proof fn lemma_sound_lookup(e: EnvView, name: Seq<char>)
    requires
        sound_env(e),
    ensures
        match lookup(e, name) {
            Some(v) => sound(v),
            None => true,
        },
{
    lemma_scope_of(e, name, 0);
}

proof fn lemma_sound_update(e: EnvView, at: int, name: Seq<char>, v: ValueView)
    requires
        sound_env(e),
        sound(v),
        0 <= at < e.scopes.len(),
    ensures
        sound_env(EnvView { scopes: e.scopes.update(at, e.scopes[at].insert(name, v)) }),
{
    let d = EnvView { scopes: e.scopes.update(at, e.scopes[at].insert(name, v)) };
    assert forall|i: int| 0 <= i < d.scopes.len() implies (#[trigger] d.scopes[i]).dom().finite() by {
        assert(e.scopes[i].dom().finite());
    }
    assert forall|i: int, k: Seq<char>|
        0 <= i < d.scopes.len() && d.scopes[i].dom().finite() && (
        #[trigger] d.scopes[i]).contains_key(k) implies sound(#[trigger] d.scopes[i][k]) by {
        assert(e.scopes[i].dom().finite());
        if i == at && k == name {
        } else {
            assert(e.scopes[i].contains_key(k));
            assert(d.scopes[i][k] == e.scopes[i][k]);
        }
    }
}

proof fn lemma_sound_declared(e: EnvView, name: Seq<char>, v: ValueView)
    requires
        sound_env(e),
        sound(v),
    ensures
        sound_env(declared(e, name, v)),
        declared(e, name, v).scopes.len() == e.scopes.len(),
{
    lemma_sound_update(e, 0, name, v);
}

proof fn lemma_sound_assigned(e: EnvView, name: Seq<char>, v: ValueView)
    requires
        sound_env(e),
        sound(v),
    ensures
        sound_env(assigned(e, name, v)),
        assigned(e, name, v).scopes.len() == e.scopes.len(),
{
    lemma_scope_of(e, name, 0);
    lemma_sound_update(e, target(e, name), name, v);
}

proof fn lemma_sound_nested(e: EnvView)
    requires
        sound_env(e),
    ensures
        sound_env(nested(e)),
        nested(e).scopes.len() == e.scopes.len() + 1,
{
    let n = nested(e);
    assert forall|i: int| 0 <= i < n.scopes.len() implies (#[trigger] n.scopes[i]).dom().finite() by {
        if i > 0 {
            assert(n.scopes[i] == e.scopes[i - 1]);
        }
    }
    assert forall|i: int, k: Seq<char>|
        0 <= i < n.scopes.len() && n.scopes[i].dom().finite() && (
        #[trigger] n.scopes[i]).contains_key(k) implies sound(#[trigger] n.scopes[i][k]) by {
        if i > 0 {
            assert(n.scopes[i] == e.scopes[i - 1]);
            assert(e.scopes[i - 1].contains_key(k));
        }
    }
}

proof fn lemma_sound_left(e: EnvView)
    requires
        sound_env(e),
    ensures
        sound_env(left(e)),
        e.scopes.len() >= 2 ==> left(e).scopes.len() == e.scopes.len() - 1 && enclosing(e) == Some(
            left(e),
        ),
{
    if e.scopes.len() >= 2 {
        let l = left(e);
        assert forall|i: int| 0 <= i < l.scopes.len() implies (#[trigger] l.scopes[i]).dom().finite() by {
            assert(l.scopes[i] == e.scopes[i + 1]);
        }
        assert forall|i: int, k: Seq<char>|
            0 <= i < l.scopes.len() && l.scopes[i].dom().finite() && (
            #[trigger] l.scopes[i]).contains_key(k) implies sound(#[trigger] l.scopes[i][k]) by {
            assert(l.scopes[i] == e.scopes[i + 1]);
            assert(e.scopes[i + 1].contains_key(k));
        }
    }
}

proof fn lemma_sound_bound(env: EnvView, params: Seq<Seq<char>>, args: Seq<ValueView>, i: int)
    requires
        sound_env(env),
        forall|j: int| 0 <= j < args.len() ==> sound(#[trigger] args[j]),
    ensures
        sound_env(bound(env, params, args, i)),
        bound(env, params, args, i).scopes.len() == env.scopes.len(),
    decreases params.len() - i,
{
    if 0 <= i < params.len() && i < args.len() {
        lemma_sound_declared(env, params[i], args[i]);
        lemma_sound_bound(declared(env, params[i], args[i]), params, args, i + 1);
    }
}

proof fn lemma_evaluate(e: crate::expr::ExprView, env: EnvView, stack: Seq<FrameView>)
    requires
        settled(env, stack),
    ensures
        orderly(evaluate(e, env, stack).machine),
{
    let depth = env.scopes.len() as int;
    lemma_sound_lookup(env, e.kind->Variable_0);
    lemma_push(stack, FrameView::Assign(e.kind->Assignment_0), depth);
    lemma_push(
        stack,
        FrameView::Callee(e.kind->Call_1, e.line, crate::interpret::semantics::callee_name(*e.kind->Call_0)),
        depth,
    );
    lemma_push(stack, FrameView::Unary(e.kind->Unary_0, e.line), depth);
    lemma_push(stack, FrameView::Logical(e.kind->Logical_0, *e.kind->Logical_2), depth);
    lemma_push(stack, FrameView::Left(e.kind->Binary_0, *e.kind->Binary_2, e.line), depth);
}

proof fn lemma_execute(d: crate::expr::stmt::DeclView, env: EnvView, stack: Seq<FrameView>)
    requires
        settled(env, stack),
    ensures
        orderly(execute(d, env, stack).machine),
{
    let depth = env.scopes.len() as int;
    match d {
        crate::expr::stmt::DeclView::FunDecl(name, params, body) => {
            let f = ValueView::Function(FnView { body, params, env });
            lemma_sound_declared(env, name, f);
        },
        crate::expr::stmt::DeclView::VarDecl(name, value) => {
            lemma_push(stack, FrameView::Declare(name), depth);
        },
        crate::expr::stmt::DeclView::Stmt(st) => {
            match st {
                crate::expr::stmt::StmtView::ExprStmt(e) => {},
                crate::expr::stmt::StmtView::PrintStmt(e) => {
                    lemma_push(stack, FrameView::Print, depth);
                },
                crate::expr::stmt::StmtView::ReturnStmt(e) => {
                    lemma_push(stack, FrameView::Return(e.line), depth);
                },
                crate::expr::stmt::StmtView::IfStmt(c, t, e) => {
                    lemma_push(
                        stack,
                        FrameView::Branch(
                            *t,
                            match e {
                                Some(x) => Some(*x),
                                None => None,
                            },
                            c.line,
                        ),
                        depth,
                    );
                },
                crate::expr::stmt::StmtView::WhileStmt(c, b) => {
                    lemma_push(stack, FrameView::Test(c, *b), depth);
                },
                crate::expr::stmt::StmtView::Block(items) => {
                    lemma_sound_nested(env);
                    lemma_push(stack, FrameView::Scope, depth + 1);
                    lemma_push(stack.push(FrameView::Scope), FrameView::Rest(items), depth + 1);
                },
            }
        },
    }
}

proof fn lemma_invoke(
    callee: ValueView,
    args: Seq<ValueView>,
    line: u32,
    name: Option<Seq<char>>,
    env: EnvView,
    stack: Seq<FrameView>,
)
    requires
        settled(env, stack),
        sound(callee),
        forall|j: int| 0 <= j < args.len() ==> sound(#[trigger] args[j]),
    ensures
        orderly(invoke(callee, args, line, name, env, stack).machine),
{
    match callee {
        ValueView::Function(f) => {
            if f.params.len() == args.len() {
                lemma_sound_nested(f.env);
                lemma_sound_bound(nested(f.env), f.params, args, 0);
                let local = entered(f, args);
                let call = FrameView::Call(env, f, name);
                lemma_push(stack, call, local.scopes.len() as int);
                lemma_push(stack.push(call), FrameView::Rest(f.body), local.scopes.len() as int);
            }
        },
        _ => {},
    }
}

proof fn lemma_proceed(
    callee: ValueView,
    done: Seq<ValueView>,
    rest: Seq<crate::expr::ExprView>,
    line: u32,
    name: Option<Seq<char>>,
    env: EnvView,
    stack: Seq<FrameView>,
)
    requires
        settled(env, stack),
        sound(callee),
        forall|j: int| 0 <= j < done.len() ==> sound(#[trigger] done[j]),
    ensures
        orderly(proceed(callee, done, rest, line, name, env, stack).machine),
{
    if rest.len() == 0 {
        lemma_invoke(callee, done, line, name, env, stack);
    } else {
        lemma_push(
            stack,
            FrameView::Argument(callee, done, rest.drop_first(), line, name),
            env.scopes.len() as int,
        );
    }
}

proof fn lemma_finish(
    caller: EnvView,
    f: FnView,
    name: Option<Seq<char>>,
    result: ValueView,
    env: EnvView,
    stack: Seq<FrameView>,
)
    requires
        sound_env(env),
        sound_env(caller),
        sound(result),
        sound_stack(stack),
        owed(stack, caller.scopes.len() as int),
    ensures
        orderly(finish(caller, f, name, result, env, stack).machine),
{
    lemma_sound_left(env);
    let after = FnView { body: f.body, params: f.params, env: left(env) };
    match name {
        Some(n) => {
            lemma_sound_assigned(caller, n, ValueView::Function(after));
        },
        None => {},
    }
}

proof fn lemma_resume(frame: FrameView, v: ValueView, env: EnvView, stack: Seq<FrameView>)
    requires
        settled(env, stack.push(frame)),
        sound(v),
    ensures
        orderly(resume(frame, v, env, stack).machine),
{
    let depth = env.scopes.len() as int;
    lemma_push(stack, frame, depth);
    lemma_pop(stack.push(frame));
    assert(stack.push(frame).drop_last() =~= stack);
    match frame {
        FrameView::Assign(n) => {
            lemma_sound_assigned(env, n, v);
        },
        FrameView::Callee(arguments, line, name) => {
            lemma_proceed(v, Seq::empty(), arguments, line, name, env, stack);
        },
        FrameView::Argument(callee, done, rest, line, name) => {
            lemma_proceed(callee, done.push(v), rest, line, name, env, stack);
        },
        FrameView::Left(op, r, line) => {
            lemma_push(stack, FrameView::Right(op, v, line), depth);
        },
        FrameView::Declare(n) => {
            lemma_sound_declared(env, n, v);
        },
        FrameView::Test(c, b) => {
            lemma_push(stack, FrameView::Repeat(c, b), depth);
        },
        FrameView::Repeat(c, b) => {
            lemma_push(stack, FrameView::Test(c, b), depth);
        },
        FrameView::Rest(items) => {
            lemma_push(stack, FrameView::Rest(items.drop_first()), depth);
        },
        FrameView::Scope => {
            lemma_sound_left(env);
        },
        FrameView::Call(caller, f, name) => {
            lemma_finish(caller, f, name, ValueView::Nil, env, stack);
        },
        _ => {},
    }
}

proof fn lemma_unwind(frame: FrameView, v: ValueView, line: u32, env: EnvView, stack: Seq<FrameView>)
    requires
        settled(env, stack.push(frame)),
        sound(v),
    ensures
        orderly(unwind(frame, v, line, env, stack).machine),
{
    let depth = env.scopes.len() as int;
    lemma_push(stack, frame, depth);
    lemma_pop(stack.push(frame));
    assert(stack.push(frame).drop_last() =~= stack);
    match frame {
        FrameView::Scope => {
            lemma_sound_left(env);
        },
        FrameView::Call(caller, f, name) => {
            lemma_finish(caller, f, name, v, env, stack);
        },
        _ => {},
    }
}

/// A machine that is set up on a sound environment is orderly.
pub proof fn lemma_start(program: Seq<crate::expr::stmt::DeclView>, env: EnvView)
    requires
        sound_env(env),
    ensures
        orderly(start(program, env)),
{
    lemma_push(Seq::empty(), FrameView::Rest(program), env.scopes.len() as int);
    assert(seq![FrameView::Rest(program)] =~= Seq::<FrameView>::empty().push(
        FrameView::Rest(program),
    ));
}

/// Every step of an orderly machine leaves an orderly machine, whatever
/// the host replies.
pub proof fn lemma_step(m: MachineView, reply: ReplyView)
    requires
        orderly(m),
    ensures
        orderly(step(m, reply).machine),
{
    match m.control {
        ControlView::Stopped => {},
        ControlView::Await(_) => {},
        ControlView::Evaluate(e) => {
            lemma_evaluate(e, m.env, m.stack);
        },
        ControlView::Execute(d) => {
            lemma_execute(d, m.env, m.stack);
        },
        ControlView::Value(v) => {
            if m.stack.len() > 0 {
                lemma_pop(m.stack);
                lemma_resume(m.stack.last(), v, m.env, m.stack.drop_last());
            }
        },
        ControlView::Return(v, line) => {
            if m.stack.len() > 0 {
                lemma_pop(m.stack);
                lemma_unwind(m.stack.last(), v, line, m.env, m.stack.drop_last());
            }
        },
    }
}

/// In an orderly machine a block that ends, normally or by a `return`,
/// has its scope to leave, and so has a call that ends: the global scope
/// is never left.
pub proof fn lemma_scopes_pair(m: MachineView)
    requires
        orderly(m),
        m.stack.len() > 0,
        m.control is Value || m.control is Return,
        m.stack.last() is Scope || m.stack.last() is Call,
    ensures
        enclosing(m.env) == Some(left(m.env)),
{
}

} // verus!
