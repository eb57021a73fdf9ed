//! Environments: chained scopes of variables.
//!
//! The model of an environment is a sequence of scopes, innermost first,
//! each a map from names to values. It always has the global scope.
use vstd::prelude::*;
use crate::interpret::lox_value::{LoxValue, ValueView, lemma_sound_value, value_view};
use crate::interpret::reachable::{sound, sound_env};

verus! {

/// One variable of a scope.
#[derive(Debug)]
struct Binding {
    name: String,
    value: LoxValue,
}

/// A scope of variables, and the scope that encloses it, if any.
#[derive(Debug)]
pub struct Env {
    env: Vec<Binding>,
    enclosing: Option<Box<Env>>,
}

/// The model of an [`Env`]: its scopes, innermost first.
pub struct EnvView {
    pub scopes: Seq<Map<Seq<char>, ValueView>>,
}

/// The variables among the first `n` bindings. Of two bindings of one
/// name the earlier counts.
closed spec fn scope_view(bs: Seq<Binding>, n: nat) -> Map<Seq<char>, ValueView>
    decreases bs, n,
{
    if n == 0 || n > bs.len() {
        Map::empty()
    } else {
        let m = scope_view(bs, (n - 1) as nat);
        if m.contains_key(bs[n - 1].name@) {
            m
        } else {
            m.insert(bs[n - 1].name@, value_view(bs[n - 1].value))
        }
    }
}

/// The model of an environment.
pub closed spec fn env_view(e: Env) -> EnvView
    decreases e,
{
    EnvView {
        scopes: seq![scope_view(e.env@, e.env@.len())] + match e.enclosing {
            Some(p) => env_view(*p).scopes,
            None => Seq::empty(),
        },
    }
}

impl View for Env {
    type V = EnvView;

    open spec fn view(&self) -> EnvView {
        env_view(*self)
    }
}

/// The environment with the global scope alone, and nothing in it.
pub open spec fn global() -> EnvView {
    EnvView { scopes: seq![Map::empty()] }
}

/// A new, empty scope inside `e`.
pub open spec fn nested(e: EnvView) -> EnvView {
    EnvView { scopes: seq![Map::empty()] + e.scopes }
}

/// The environment around the innermost scope, if there is one.
pub open spec fn enclosing(e: EnvView) -> Option<EnvView> {
    if e.scopes.len() > 1 {
        Some(EnvView { scopes: e.scopes.drop_first() })
    } else {
        None
    }
}

/// The index of the innermost scope from `from` on that declares `name`;
/// the number of scopes, if none does.
pub open spec fn scope_of(e: EnvView, name: Seq<char>, from: int) -> int
    decreases e.scopes.len() - from,
{
    if from < 0 || from >= e.scopes.len() {
        e.scopes.len() as int
    } else if e.scopes[from].contains_key(name) {
        from
    } else {
        scope_of(e, name, from + 1)
    }
}

/// Whether some scope declares `name`.
pub open spec fn declares(e: EnvView, name: Seq<char>) -> bool {
    scope_of(e, name, 0) < e.scopes.len()
}

/// The value of `name`: that of the innermost scope that declares it.
pub open spec fn lookup(e: EnvView, name: Seq<char>) -> Option<ValueView> {
    if declares(e, name) {
        Some(e.scopes[scope_of(e, name, 0)][name])
    } else {
        None
    }
}

/// `name` declared in the innermost scope, with value `v`. A variable of
/// that name in the same scope is replaced; one of an outer scope is
/// shadowed.
pub open spec fn declared(e: EnvView, name: Seq<char>, v: ValueView) -> EnvView {
    EnvView { scopes: e.scopes.update(0, e.scopes[0].insert(name, v)) }
}

/// The scope that an assignment to `name` writes: the innermost that
/// declares it, or the global scope if none does.
pub open spec fn target(e: EnvView, name: Seq<char>) -> int {
    if declares(e, name) {
        scope_of(e, name, 0)
    } else {
        e.scopes.len() - 1
    }
}

/// `v` assigned to `name`.
pub open spec fn assigned(e: EnvView, name: Seq<char>, v: ValueView) -> EnvView {
    EnvView {
        scopes: e.scopes.update(target(e, name), e.scopes[target(e, name)].insert(name, v)),
    }
}

/// Whether the environment has a scope. The model of every [`Env`] has.
pub open spec fn proper(e: EnvView) -> bool {
    e.scopes.len() >= 1
}

/// The model of an environment has the global scope at least.
pub proof fn lemma_proper(e: Env)
    ensures
        proper(e@),
{
    lemma_scopes(e);
}

/// A variable that was declared is found, with the value it was declared
/// with; every other name is found as before.
pub proof fn lemma_declared(e: EnvView, name: Seq<char>, v: ValueView, other: Seq<char>)
    requires
        proper(e),
    ensures
        lookup(declared(e, name, v), name) == Some(v),
        other != name ==> lookup(declared(e, name, v), other) == lookup(e, other),
        declared(e, name, v).scopes.len() == e.scopes.len(),
{
    let d = declared(e, name, v);
    if other != name {
        assert forall|i: int| 0 <= i < e.scopes.len() implies (#[trigger] e.scopes[i]).remove(name)
            == d.scopes[i].remove(name) by {
            assert(e.scopes[i].remove(name) =~= d.scopes[i].remove(name));
        }
        lemma_same_search(e, d, other, name, 0);
    }
}

/// Searching two environments that differ in one scope, and there in the
/// name `changed` alone, for another name finds the same scope.
proof fn lemma_same_search(e: EnvView, d: EnvView, name: Seq<char>, changed: Seq<char>, from: int)
    requires
        0 <= from,
        e.scopes.len() == d.scopes.len(),
        name != changed,
        forall|i: int|
            0 <= i < e.scopes.len() ==> (#[trigger] e.scopes[i]).remove(changed)
                == d.scopes[i].remove(changed),
    ensures
        scope_of(e, name, from) == scope_of(d, name, from),
        scope_of(e, name, from) < e.scopes.len() ==> e.scopes[scope_of(e, name, from)][name]
            == d.scopes[scope_of(e, name, from)][name],
    decreases e.scopes.len() - from,
{
    if from < e.scopes.len() {
        assert(e.scopes[from].remove(changed).contains_key(name) == e.scopes[from].contains_key(
            name,
        ));
        assert(d.scopes[from].remove(changed).contains_key(name) == d.scopes[from].contains_key(
            name,
        ));
        if e.scopes[from].contains_key(name) {
            assert(e.scopes[from].remove(changed)[name] == e.scopes[from][name]);
            assert(d.scopes[from].remove(changed)[name] == d.scopes[from][name]);
        } else {
            lemma_same_search(e, d, name, changed, from + 1);
        }
    }
}

/// Searching for the name that an assignment wrote finds the scope that
/// was written.
proof fn lemma_written(e: EnvView, name: Seq<char>, v: ValueView, from: int)
    requires
        proper(e),
        0 <= from <= target(e, name),
        forall|i: int| from <= i < target(e, name) ==> !(#[trigger] e.scopes[i]).contains_key(name),
    ensures
        scope_of(assigned(e, name, v), name, from) == target(e, name),
    decreases target(e, name) - from,
{
    lemma_scope_of(e, name, 0);
    if from < target(e, name) {
        lemma_written(e, name, v, from + 1);
    }
}

/// No scope before the one that a search finds declares the name.
proof fn lemma_before_found(e: EnvView, name: Seq<char>, from: int)
    requires
        0 <= from,
    ensures
        forall|i: int|
            from <= i < scope_of(e, name, from) && i < e.scopes.len() ==> !(
            #[trigger] e.scopes[i]).contains_key(name),
    decreases e.scopes.len() - from,
{
    if from < e.scopes.len() && !e.scopes[from].contains_key(name) {
        lemma_before_found(e, name, from + 1);
    }
}

/// A variable that was assigned to is found, with the value assigned;
/// every other name is found as before, and no scope is added or lost.
pub proof fn lemma_assigned(e: EnvView, name: Seq<char>, v: ValueView, other: Seq<char>)
    requires
        proper(e),
    ensures
        lookup(assigned(e, name, v), name) == Some(v),
        other != name ==> lookup(assigned(e, name, v), other) == lookup(e, other),
        assigned(e, name, v).scopes.len() == e.scopes.len(),
{
    lemma_scope_of(e, name, 0);
    lemma_before_found(e, name, 0);
    lemma_written(e, name, v, 0);
    let d = assigned(e, name, v);
    if other != name {
        assert forall|i: int| 0 <= i < e.scopes.len() implies (#[trigger] e.scopes[i]).remove(name)
            == d.scopes[i].remove(name) by {
            assert(e.scopes[i].remove(name) =~= d.scopes[i].remove(name));
        }
        lemma_same_search(e, d, other, name, 0);
    }
}

/// Shadowing: a variable declared in a new scope is found there with its
/// own value, and when the scope ends the environment is what it was.
pub proof fn lemma_shadowed(e: EnvView, name: Seq<char>, v: ValueView)
    requires
        proper(e),
    ensures
        lookup(declared(nested(e), name, v), name) == Some(v),
        enclosing(declared(nested(e), name, v)) == Some(e),
{
    lemma_declared(nested(e), name, v, name);
    assert(declared(nested(e), name, v).scopes.drop_first() =~= e.scopes);
}

/// An assignment inside a new scope to a variable of an outer scope is an
/// assignment in the outer environment: it is still there when the new
/// scope ends.
pub proof fn lemma_assigned_through(e: EnvView, name: Seq<char>, v: ValueView)
    requires
        proper(e),
    ensures
        enclosing(assigned(nested(e), name, v)) == Some(assigned(e, name, v)),
{
    let n = nested(e);
    assert(n.scopes.drop_first() =~= e.scopes);
    lemma_shift(n, e, name, 0);
    lemma_scope_of(e, name, 0);
    assert(!n.scopes[0].contains_key(name));
    assert(scope_of(n, name, 0) == scope_of(n, name, 1));
    assert(target(n, name) == target(e, name) + 1);
    assert(assigned(n, name, v).scopes.drop_first() =~= assigned(e, name, v).scopes);
}

/// The index of the first of the first `n` bindings that is named `name`,
/// or `n` if none is.
spec fn first_at(bs: Seq<Binding>, name: Seq<char>, n: nat) -> nat
    decreases n,
{
    if n == 0 {
        0
    } else {
        let f = first_at(bs, name, (n - 1) as nat);
        if f < n - 1 {
            f
        } else if bs[n - 1].name@ == name {
            (n - 1) as nat
        } else {
            n
        }
    }
}

proof fn lemma_first_at(bs: Seq<Binding>, name: Seq<char>, n: nat)
    requires
        n <= bs.len(),
    ensures
        first_at(bs, name, n) <= n,
        first_at(bs, name, n) < n ==> bs[first_at(bs, name, n) as int].name@ == name,
        forall|j: int| 0 <= j < first_at(bs, name, n) ==> (#[trigger] bs[j]).name@ != name,
    decreases n,
{
    if n > 0 {
        lemma_first_at(bs, name, (n - 1) as nat);
    }
}

/// A scope's map holds a name exactly if a binding has it, and then with
/// the value of the first such binding.
proof fn lemma_scope_view(bs: Seq<Binding>, name: Seq<char>, n: nat)
    requires
        n <= bs.len(),
    ensures
        scope_view(bs, n).contains_key(name) == (first_at(bs, name, n) < n),
        first_at(bs, name, n) < n ==> scope_view(bs, n)[name] == value_view(
            bs[first_at(bs, name, n) as int].value,
        ),
    decreases n,
{
    if n > 0 {
        lemma_scope_view(bs, name, (n - 1) as nat);
        lemma_first_at(bs, name, (n - 1) as nat);
        lemma_scope_view(bs, bs[n - 1].name@, (n - 1) as nat);
    }
}

/// The first `n` bindings of two lists that agree on them give one map.
proof fn lemma_scope_view_prefix(a: Seq<Binding>, b: Seq<Binding>, n: nat)
    requires
        n <= a.len(),
        n <= b.len(),
        forall|i: int| 0 <= i < n ==> a[i] == b[i],
    ensures
        scope_view(a, n) == scope_view(b, n),
    decreases n,
{
    if n > 0 {
        lemma_scope_view_prefix(a, b, (n - 1) as nat);
    }
}

/// Two lists with the same names give maps with the same names.
proof fn lemma_first_at_names(a: Seq<Binding>, b: Seq<Binding>, name: Seq<char>, n: nat)
    requires
        n <= a.len(),
        n <= b.len(),
        forall|i: int| 0 <= i < n ==> (#[trigger] a[i]).name@ == b[i].name@,
    ensures
        first_at(a, name, n) == first_at(b, name, n),
    decreases n,
{
    if n > 0 {
        lemma_first_at_names(a, b, name, (n - 1) as nat);
    }
}

/// Whether no two bindings have one name.
spec fn unique(bs: Seq<Binding>) -> bool {
    forall|i: int, j: int|
        0 <= i < j < bs.len() ==> (#[trigger] bs[i]).name@ != (#[trigger] bs[j]).name@
}

/// The index of the first binding named `k`, if there is one.
fn position(bindings: &Vec<Binding>, k: &String) -> (r: Option<usize>)
    ensures
        match r {
            Some(i) => i < bindings@.len() && first_at(bindings@, k@, bindings@.len()) == i,
            None => first_at(bindings@, k@, bindings@.len()) == bindings@.len(),
        },
{
    let mut i: usize = 0;
    while i < bindings.len()
        invariant
            i <= bindings@.len(),
            first_at(bindings@, k@, i as nat) == i,
        decreases bindings.len() - i,
    {
        if bindings[i].name.eq(k) {
            proof {
                lemma_first_found(bindings@, k@, i as nat, bindings@.len());
            }
            return Some(i);
        }
        i += 1;
    }
    None
}

/// Once a binding of the name is found, later bindings do not matter.
proof fn lemma_first_found(bs: Seq<Binding>, name: Seq<char>, i: nat, n: nat)
    requires
        i < n <= bs.len(),
        first_at(bs, name, i) == i,
        bs[i as int].name@ == name,
    ensures
        first_at(bs, name, n) == i,
    decreases n,
{
    if n > i + 1 {
        lemma_first_found(bs, name, i, (n - 1) as nat);
    }
}

/// Puts `k` with value `v` into a scope, and gives the value it replaces.
fn insert(bindings: &mut Vec<Binding>, k: String, v: LoxValue) -> (r: Option<LoxValue>)
    ensures
        scope_view(final(bindings)@, final(bindings)@.len()) == scope_view(
            old(bindings)@,
            old(bindings)@.len(),
        ).insert(k@, v@),
        match r {
            Some(o) => scope_view(old(bindings)@, old(bindings)@.len()).contains_key(k@)
                && scope_view(old(bindings)@, old(bindings)@.len())[k@] == o@,
            None => !scope_view(old(bindings)@, old(bindings)@.len()).contains_key(k@),
        },
        unique(old(bindings)@) ==> unique(final(bindings)@),
{
    let ghost before = bindings@;
    let ghost name = k@;
    let ghost value = v@;
    proof {
        lemma_scope_view(before, name, before.len());
    }
    match position(bindings, &k) {
        Some(i) => {
            let mut slot = Binding { name: k, value: v };
            bindings.push(slot);
            let last = bindings.len() - 1;
            let previous = bindings.swap_remove(i);
            let ghost after = bindings@;
            proof {
                lemma_first_at(before, name, before.len());
                assert(after.len() == before.len());
                assert(after =~= before.update(i as int, after[i as int]));
                assert(after[i as int].name@ == name && after[i as int].value@ == value);
                assert forall|j: int| 0 <= j < before.len() implies (#[trigger] after[j]).name@
                    == before[j].name@ by {
                    if j != i {
                        assert(after[j] == before[j]);
                    }
                }
                let m1 = scope_view(after, after.len());
                let m2 = scope_view(before, before.len()).insert(name, value);
                assert forall|q: Seq<char>| #[trigger] m1.contains_key(q) == m2.contains_key(q) by {
                    lemma_first_at_names(after, before, q, before.len());
                    lemma_scope_view(after, q, after.len());
                    lemma_scope_view(before, q, before.len());
                }
                assert forall|q: Seq<char>| m1.contains_key(q) implies #[trigger] m1[q] == m2[q] by {
                    lemma_first_at_names(after, before, q, before.len());
                    lemma_scope_view(after, q, after.len());
                    lemma_scope_view(before, q, before.len());
                    lemma_first_at(before, q, before.len());
                    let f = first_at(before, q, before.len()) as int;
                    if f < before.len() && f != i {
                        assert(after[f] == before[f]);
                    }
                }
                assert(m1.dom() =~= m2.dom());
                assert(m1 =~= m2);
                if unique(before) {
                    assert forall|a: int, b: int| 0 <= a < b < after.len() implies (
                    #[trigger] after[a]).name@ != (#[trigger] after[b]).name@ by {
                        assert(after[a].name@ == before[a].name@);
                        assert(after[b].name@ == before[b].name@);
                    }
                }
            }
            Some(previous.value)
        },
        None => {
            bindings.push(Binding { name: k, value: v });
            let ghost after = bindings@;
            proof {
                lemma_scope_view_prefix(after, before, before.len());
                lemma_first_at(before, name, before.len());
                if unique(before) {
                    assert forall|i: int, j: int| 0 <= i < j < after.len() implies (
                    #[trigger] after[i]).name@ != (#[trigger] after[j]).name@ by {
                        assert(after[i] == before[i]);
                        if j < before.len() {
                            assert(after[j] == before[j]);
                        }
                    }
                }
            }
            None
        },
    }
}

impl Env {
    /// Whether no scope of the chain holds a name twice.
    pub closed spec fn wf(&self) -> bool
        decreases self,
    {
        &&& unique(self.env@)
        &&& match self.enclosing {
            Some(p) => p.wf(),
            None => true,
        }
    }

    /// The environment with the global scope alone.
    pub fn global() -> (e: Env)
        ensures
            e@ == global(),
            e.wf(),
    {
        let e = Env { env: Vec::new(), enclosing: None };
        proof {
            lemma_scopes(e);
            assert(e@.scopes =~= global().scopes);
        }
        e
    }

    /// A new, empty scope inside `enclosing`.
    pub fn new(enclosing: Env) -> (e: Env)
        ensures
            e@ == nested(enclosing@),
            enclosing.wf() ==> e.wf(),
    {
        let e = Env { env: Vec::new(), enclosing: Some(Box::new(enclosing)) };
        proof {
            lemma_scopes(e);
            assert(e@.scopes =~= seq![e@.scopes[0]] + e@.scopes.drop_first());
            assert(e@.scopes =~= nested(enclosing@).scopes);
        }
        e
    }

    /// Ends the innermost scope: gives the environment around it, if any.
    pub fn end(self) -> (r: Option<Box<Env>>)
        ensures
            match r {
                Some(p) => enclosing(self@) == Some(p@),
                None => enclosing(self@) is None,
            },
            self.wf() ==> match r {
                Some(p) => p.wf(),
                None => true,
            },
    {
        proof {
            lemma_scopes(self);
        }
        self.enclosing
    }

    /// Leaves the innermost scope: gives the environment around it. The
    /// global scope is never left.
    pub fn leave(self) -> (r: Env)
        ensures
            r@ == match enclosing(self@) {
                Some(outer) => outer,
                None => self@,
            },
            self.wf() ==> r.wf(),
    {
        proof {
            lemma_scopes(self);
        }
        match self.enclosing {
            Some(p) => *p,
            None => {
                let r = Env { env: self.env, enclosing: None };
                proof {
                    lemma_scopes(r);
                    assert(r@.scopes =~= self@.scopes);
                }
                r
            },
        }
    }

    /// The value of `k` in the innermost scope that declares it.
    pub fn get(&self, k: &String) -> (r: Option<&LoxValue>)
        ensures
            match r {
                Some(v) => lookup(self@, k@) == Some(v@),
                None => lookup(self@, k@) is None,
            },
        decreases self,
    {
        proof {
            lemma_scope_view(self.env@, k@, self.env@.len());
            lemma_chain(*self, k@);
        }
        match position(&self.env, k) {
            Some(i) => Some(&self.env[i].value),
            None => match &self.enclosing {
                Some(p) => p.get(k),
                None => None,
            },
        }
    }

    /// Assigns `v` to `k` in the innermost scope that declares `k`, or
    /// declares `k` in the global scope if none does. Gives the value that
    /// was replaced.
    pub fn assign(&mut self, k: String, v: LoxValue) -> (r: Option<LoxValue>)
        ensures
            final(self)@ == assigned(old(self)@, k@, v@),
            match r {
                Some(o) => lookup(old(self)@, k@) == Some(o@),
                None => lookup(old(self)@, k@) is None,
            },
            old(self).wf() ==> final(self).wf(),
        decreases *old(self),
    {
        proof {
            lemma_scope_view(self.env@, k@, self.env@.len());
            lemma_chain(*self, k@);
            lemma_scopes(*self);
        }
        let ghost before = *self;
        let ghost name = k@;
        let ghost value = v@;
        let found = position(&self.env, &k).is_some();
        if found || self.enclosing.is_none() {
            let r = insert(&mut self.env, k, v);
            proof {
                lemma_scopes(*self);
                lemma_scope_of(before@, name, 0);
                assert(target(before@, name) == 0);
                assert(self@.scopes =~= assigned(before@, name, value).scopes);
            }
            r
        } else {
            let mut parent = self.enclosing.take().unwrap();
            let ghost outer = *parent;
            let r = parent.assign(k, v);
            self.enclosing = Some(parent);
            proof {
                lemma_scopes(outer);
                lemma_scopes(*parent);
                lemma_scopes(*self);
                lemma_scope_of(outer@, name, 0);
                let t = target(outer@, name);
                assert(target(before@, name) == t + 1);
                assert(0 <= t < outer@.scopes.len());
                assert(before@.scopes[t + 1] == outer@.scopes[t]);
                let want = assigned(before@, name, value).scopes;
                assert(self@.scopes.len() == want.len());
                assert forall|idx: int| 0 <= idx < want.len() implies self@.scopes[idx]
                    == want[idx] by {
                    if idx > 0 {
                        assert(self@.scopes[idx] == parent@.scopes[idx - 1]);
                        assert(before@.scopes[idx] == outer@.scopes[idx - 1]);
                    }
                }
                assert(self@.scopes =~= want);
            }
            r
        }
    }

    /// Declares `k` in the innermost scope with value `v`. Gives the value
    /// that a variable of that name had in this scope, if there was one.
    pub fn decl(&mut self, k: String, v: LoxValue) -> (r: Option<LoxValue>)
        ensures
            final(self)@ == declared(old(self)@, k@, v@),
            match r {
                Some(o) => old(self)@.scopes[0].contains_key(k@) && old(self)@.scopes[0][k@] == o@,
                None => !old(self)@.scopes[0].contains_key(k@),
            },
            old(self).wf() ==> final(self).wf(),
    {
        let ghost before = *self;
        let ghost name = k@;
        let ghost value = v@;
        let r = insert(&mut self.env, k, v);
        proof {
            lemma_scopes(before);
            lemma_scopes(*self);
            assert(self@.scopes =~= declared(before@, name, value).scopes);
        }
        r
    }

    /// Whether some scope of the chain declares `k`.
    pub fn contains_key(&self, k: &String) -> (r: bool)
        ensures
            r == declares(self@, k@),
        decreases self,
    {
        proof {
            lemma_scope_view(self.env@, k@, self.env@.len());
            lemma_chain(*self, k@);
        }
        match position(&self.env, k) {
            Some(_) => true,
            None => match &self.enclosing {
                Some(p) => p.contains_key(k),
                None => false,
            },
        }
    }
}

/// An environment has its own scope first, then those of the chain.
proof fn lemma_scopes(e: Env)
    ensures
        e@.scopes.len() >= 1,
        e@.scopes[0] == scope_view(e.env@, e.env@.len()),
        match e.enclosing {
            Some(p) => e@.scopes.drop_first() == p@.scopes,
            None => e@.scopes.len() == 1,
        },
{
    match e.enclosing {
        Some(p) => {
            assert(e@.scopes.drop_first() =~= p@.scopes);
        },
        None => {},
    }
}

/// Searching an environment from scope `from + 1` on is searching the
/// enclosing environment from scope `from` on.
proof fn lemma_shift(e: EnvView, p: EnvView, name: Seq<char>, from: int)
    requires
        e.scopes.len() >= 1,
        p.scopes == e.scopes.drop_first(),
        0 <= from,
    ensures
        scope_of(e, name, from + 1) == scope_of(p, name, from) + 1,
    decreases p.scopes.len() - from,
{
    if from < p.scopes.len() {
        if !p.scopes[from].contains_key(name) {
            lemma_shift(e, p, name, from + 1);
        }
    }
}

/// A name is looked up in the innermost scope first, then in the
/// enclosing environment.
proof fn lemma_chain(e: Env, name: Seq<char>)
    ensures
        e@.scopes[0].contains_key(name) ==> declares(e@, name) && scope_of(e@, name, 0) == 0,
        !e@.scopes[0].contains_key(name) ==> match e.enclosing {
            Some(p) => declares(e@, name) == declares(p@, name) && lookup(e@, name) == lookup(
                p@,
                name,
            ) && scope_of(e@, name, 0) == scope_of(p@, name, 0) + 1,
            None => !declares(e@, name),
        },
{
    lemma_scopes(e);
    match e.enclosing {
        Some(p) => {
            lemma_scopes(*p);
            lemma_shift(e@, p@, name, 0);
            if !e@.scopes[0].contains_key(name) {
                let at = scope_of(p@, name, 0);
                assert(scope_of(e@, name, 0) == scope_of(e@, name, 1));
                assert(scope_of(e@, name, 0) == at + 1);
                lemma_scope_of(p@, name, 0);
                if at < p@.scopes.len() {
                    assert(e@.scopes[at + 1] == p@.scopes[at]);
                }
            }
        },
        None => {
            if !e@.scopes[0].contains_key(name) {
                assert(scope_of(e@, name, 1) == 1);
            }
        },
    }
}

/// The scope found from `from` on lies from `from` on, and declares the
/// name.
pub proof fn lemma_scope_of(e: EnvView, name: Seq<char>, from: int)
    requires
        0 <= from,
    ensures
        from <= scope_of(e, name, from) || scope_of(e, name, from) == e.scopes.len(),
        scope_of(e, name, from) <= e.scopes.len(),
        scope_of(e, name, from) < e.scopes.len() ==> e.scopes[scope_of(e, name, from)].contains_key(
            name,
        ),
    decreases e.scopes.len() - from,
{
    if from < e.scopes.len() && !e.scopes[from].contains_key(name) {
        lemma_scope_of(e, name, from + 1);
    }
}

fn copy_binding(b: &Binding) -> (r: Binding)
    ensures
        r.name@ == b.name@,
        r.value@ == b.value@,
    decreases b, 2int,
{
    Binding { name: b.name.clone(), value: b.value.clone() }
}

impl Clone for Env {
    fn clone(&self) -> (r: Env)
        ensures
            r@ == self@,
            self.wf() ==> r.wf(),
        decreases self, 1int,
    {
        let mut env: Vec<Binding> = Vec::new();
        let mut i: usize = 0;
        while i < self.env.len()
            invariant
                i <= self.env@.len(),
                env@.len() == i,
                forall|j: int|
                    0 <= j < i ==> (#[trigger] env@[j]).name@ == self.env@[j].name@ && env@[j].value@
                        == self.env@[j].value@,
            decreases self.env@.len() - i,
        {
            env.push(copy_binding(&self.env[i]));
            i += 1;
        }
        let enclosing = match &self.enclosing {
            Some(p) => Some(Box::new((&**p).clone())),
            None => None,
        };
        let r = Env { env, enclosing };
        proof {
            lemma_same_scope(r.env@, self.env@, r.env@.len());
            assert(r@.scopes =~= self@.scopes);
            if self.wf() {
                assert forall|a: int, b: int| 0 <= a < b < r.env@.len() implies (
                #[trigger] r.env@[a]).name@ != (#[trigger] r.env@[b]).name@ by {
                    assert(r.env@[a].name@ == self.env@[a].name@);
                    assert(r.env@[b].name@ == self.env@[b].name@);
                }
            }
        }
        r
    }
}

/// Bindings with the same names and values give the same map.
proof fn lemma_same_scope(a: Seq<Binding>, b: Seq<Binding>, n: nat)
    requires
        n <= a.len(),
        n <= b.len(),
        forall|i: int|
            0 <= i < n ==> (#[trigger] a[i]).name@ == b[i].name@ && a[i].value@ == b[i].value@,
    ensures
        scope_view(a, n) == scope_view(b, n),
    decreases n,
{
    if n > 0 {
        lemma_same_scope(a, b, (n - 1) as nat);
    }
}

/// The variables of a scope are finitely many, and their values sound.
proof fn lemma_sound_scope(bs: Seq<Binding>, n: nat)
    requires
        n <= bs.len(),
    ensures
        scope_view(bs, n).dom().finite(),
        forall|k: Seq<char>|
            scope_view(bs, n).contains_key(k) ==> sound(#[trigger] scope_view(bs, n)[k]),
    decreases bs, n,
{
    if n > 0 {
        lemma_sound_scope(bs, (n - 1) as nat);
        lemma_sound_value(bs[n - 1].value);
    }
}

/// The model of every environment is sound: each environment in it,
/// those of the functions it holds included, has its global scope.
pub proof fn lemma_sound_env(e: Env)
    ensures
        sound_env(e@),
    decreases e, 0nat,
{
    lemma_scopes(e);
    lemma_sound_scope(e.env@, e.env@.len());
    match e.enclosing {
        Some(p) => {
            lemma_sound_env(*p);
            assert forall|i: int| 0 <= i < e@.scopes.len() implies (
            #[trigger] e@.scopes[i]).dom().finite() by {
                if i > 0 {
                    assert(e@.scopes[i] == e@.scopes.drop_first()[i - 1]);
                }
            }
            assert forall|i: int, k: Seq<char>|
                0 <= i < e@.scopes.len() && e@.scopes[i].dom().finite() && (
                #[trigger] e@.scopes[i]).contains_key(k) implies sound(
                #[trigger] e@.scopes[i][k],
            ) by {
                if i > 0 {
                    assert(e@.scopes[i] == p@.scopes[i - 1]);
                    assert(p@.scopes[i - 1].contains_key(k));
                }
            }
        },
        None => {},
    }
}

} // verus!
