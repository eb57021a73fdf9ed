//! Runtime values.
use vstd::prelude::*;
use crate::expr::stmt::{Decl, DeclView, clone_decls, decl_views, name_views};
use crate::interpret::env::{Env, EnvView, env_view, lemma_sound_env};
use crate::interpret::reachable::sound;
use crate::interpret::lox_type::LoxCallee;
use crate::text::clone_names;
use crate::list::reversed;
use crate::interpret::semantics::{bound, entered};

verus! {

/// A runtime value. A number is held as the bits of a double.
#[derive(Debug)]
pub enum LoxValue {
    Function(LoxFn),
    Num(u64),
    Str(String),
    Bool(bool),
    Nil,
}

/// A function value: its parameters, its body, and the environment it was
/// declared in, as that environment stood then. The environment is the
/// closure; it is the function's own copy.
#[derive(Debug)]
pub struct LoxFn {
    body: Vec<Decl>,
    arguments: Vec<String>,
    env: Env,
}

/// The model of a [`LoxValue`].
pub enum ValueView {
    Function(FnView),
    Num(u64),
    Str(Seq<char>),
    Bool(bool),
    Nil,
}

/// The model of a [`LoxFn`].
pub struct FnView {
    pub body: Seq<DeclView>,
    pub params: Seq<Seq<char>>,
    pub env: EnvView,
}

/// The model of a function value.
pub closed spec fn fn_view(f: LoxFn) -> FnView
    decreases f,
{
    FnView { body: decl_views(f.body@), params: name_views(f.arguments@), env: env_view(f.env) }
}

/// The model of a value.
pub open spec fn value_view(v: LoxValue) -> ValueView
    decreases v,
{
    match v {
        LoxValue::Function(f) => ValueView::Function(fn_view(f)),
        LoxValue::Num(n) => ValueView::Num(n),
        LoxValue::Str(s) => ValueView::Str(s@),
        LoxValue::Bool(b) => ValueView::Bool(b),
        LoxValue::Nil => ValueView::Nil,
    }
}

/// The models of a list of values, in order.
pub open spec fn value_views(vs: Seq<LoxValue>) -> Seq<ValueView> {
    Seq::new(vs.len(), |i: int| value_view(vs[i]))
}

impl View for LoxValue {
    type V = ValueView;

    open spec fn view(&self) -> ValueView {
        value_view(*self)
    }
}

impl View for LoxFn {
    type V = FnView;

    open spec fn view(&self) -> FnView {
        fn_view(*self)
    }
}

impl LoxFn {
    /// A function with the given body and parameters, closed over `env`.
    /// The name is not part of the value.
    pub fn new(name: String, body: Vec<Decl>, arguments: Vec<String>, env: Env) -> (f: LoxFn)
        ensures
            f@ == (FnView { body: decl_views(body@), params: name_views(arguments@), env: env@ }),
    {
        LoxFn { body, arguments, env }
    }

    /// The function's parameter names.
    pub fn parameters(&self) -> (names: &Vec<String>)
        ensures
            name_views(names@) == self@.params,
    {
        &self.arguments
    }

    /// The function's body.
    pub fn body(&self) -> (body: &Vec<Decl>)
        ensures
            decl_views(body@) == self@.body,
    {
        &self.body
    }

    /// The environment the function is closed over.
    pub fn closure(&self) -> (env: &Env)
        ensures
            env@ == self@.env,
    {
        &self.env
    }

    /// Enters the function: gives the environment in which its body runs,
    /// a new scope inside the function's own environment with each
    /// parameter declared with the argument at its position.
    pub fn call(&self, arguments: Vec<LoxValue>) -> (env: Env)
        ensures
            env@ == entered(self@, value_views(arguments@)),
    {
        let ghost args = value_views(arguments@);
        let ghost given = arguments@;
        let n = arguments.len();
        let mut local = Env::new(self.env.clone());
        let mut pending = reversed(arguments);
        let mut i: usize = 0;
        while i < self.arguments.len() && pending.len() > 0
            invariant
                n == given.len(),
                args == value_views(given),
                i <= n,
                pending@.len() == n - i,
                forall|j: int| 0 <= j < pending@.len() ==> pending@[j] == given[n - 1 - j],
                bound(local@, self@.params, args, i as int) == entered(self@, args),
            decreases pending@.len(),
        {
            let value = pending.pop().unwrap();
            assert(value == given[i as int]);
            assert(self@.params[i as int] == self.arguments@[i as int]@);
            local.decl(self.arguments[i].clone(), value);
            i += 1;
        }
        local
    }

    /// The same function, closed over `env` instead.
    pub fn rebind(self, env: Env) -> (f: LoxFn)
        ensures
            f@ == (FnView { body: self@.body, params: self@.params, env: env@ }),
    {
        LoxFn { body: self.body, arguments: self.arguments, env }
    }
}

impl LoxCallee for LoxFn {
    closed spec fn parameter_count(&self) -> nat {
        self.arguments@.len()
    }

    fn arity(&self) -> (n: u32) {
        if self.arguments.len() > u32::MAX as usize {
            u32::MAX
        } else {
            self.arguments.len() as u32
        }
    }
}

/// A function takes as many arguments as it has parameters.
pub proof fn lemma_parameters(f: LoxFn)
    ensures
        f.parameter_count() == f@.params.len(),
{
}

/// The model of every value is sound.
pub proof fn lemma_sound_value(v: LoxValue)
    ensures
        sound(v@),
    decreases v, 0nat,
{
    match v {
        LoxValue::Function(f) => {
            lemma_sound_env(f.env);
        },
        _ => {},
    }
}

impl Clone for LoxFn {
    fn clone(&self) -> (r: LoxFn)
        ensures
            r@ == self@,
        decreases self, 1int,
    {
        LoxFn {
            body: clone_decls(&self.body),
            arguments: clone_names(&self.arguments),
            env: self.env.clone(),
        }
    }
}

impl Clone for LoxValue {
    fn clone(&self) -> (r: LoxValue)
        ensures
            r@ == self@,
        decreases self, 1int,
    {
        match self {
            LoxValue::Function(f) => LoxValue::Function(f.clone()),
            LoxValue::Num(n) => LoxValue::Num(*n),
            LoxValue::Str(s) => LoxValue::Str(s.clone()),
            LoxValue::Bool(b) => LoxValue::Bool(*b),
            LoxValue::Nil => LoxValue::Nil,
        }
    }
}

} // verus!
