//! The variable environment: a stack of scopes, searched top-down.
//!
//! A scope maps names to values; the bottom scope is the globals. Entering
//! a block or a function body pushes a scope, leaving pops it, so
//! "restore the previous scope on every exit path" is a mechanical pop.
//! `define` writes the innermost scope (re-declaration silently
//! overwrites); `get` and `assign` search outward and report an undefined
//! variable when no scope binds the name — assignment never creates a
//! binding.

use vstd::prelude::*;

use crate::error::{Error, ErrorV};
use crate::expr::{Symbol, Value, ValueV};

verus! {

/// The first value bound to `name`, scanning the scope's entries in order.
pub open spec fn scope_lookup(s: Seq<(Seq<char>, ValueV)>, name: Seq<char>) -> Option<ValueV>
    decreases s.len(),
{
    if s.len() == 0 {
        Option::None
    } else if s[0].0 == name {
        Option::Some(s[0].1)
    } else {
        scope_lookup(s.drop_first(), name)
    }
}

/// The scope with `name` bound to `v`: the first entry for `name` is
/// replaced, or the binding is appended if the name is new.
pub open spec fn scope_set(
    s: Seq<(Seq<char>, ValueV)>,
    name: Seq<char>,
    v: ValueV,
) -> Seq<(Seq<char>, ValueV)>
    decreases s.len(),
{
    if s.len() == 0 {
        seq![(name, v)]
    } else if s[0].0 == name {
        seq![(name, v)] + s.drop_first()
    } else {
        seq![s[0]] + scope_set(s.drop_first(), name, v)
    }
}

/// The value of `name` in the innermost scope that binds it.
pub open spec fn env_lookup(env: Seq<Seq<(Seq<char>, ValueV)>>, name: Seq<char>) -> Option<ValueV>
    decreases env.len(),
{
    if env.len() == 0 {
        Option::None
    } else {
        match scope_lookup(env.last(), name) {
            Option::Some(v) => Option::Some(v),
            Option::None => env_lookup(env.drop_last(), name),
        }
    }
}

/// The environment after `name = v`: the innermost scope that already
/// binds `name` is rewritten; `None` when no scope binds it.
pub open spec fn env_assign(
    env: Seq<Seq<(Seq<char>, ValueV)>>,
    name: Seq<char>,
    v: ValueV,
) -> Option<Seq<Seq<(Seq<char>, ValueV)>>>
    decreases env.len(),
{
    if env.len() == 0 {
        Option::None
    } else if scope_lookup(env.last(), name) is Some {
        Option::Some(env.drop_last().push(scope_set(env.last(), name, v)))
    } else {
        match env_assign(env.drop_last(), name, v) {
            Option::Some(e2) => Option::Some(e2.push(env.last())),
            Option::None => Option::None,
        }
    }
}

/// The environment after `var name = v`: the innermost scope gains or
/// rewrites the binding, outer scopes are untouched.
pub open spec fn env_define(
    env: Seq<Seq<(Seq<char>, ValueV)>>,
    name: Seq<char>,
    v: ValueV,
) -> Seq<Seq<(Seq<char>, ValueV)>>
    recommends
        env.len() >= 1,
{
    env.update(env.len() - 1, scope_set(env.last(), name, v))
}

proof fn lemma_scope_lookup_found(s: Seq<(Seq<char>, ValueV)>, name: Seq<char>, i: int)
    requires
        0 <= i < s.len(),
        s[i].0 == name,
        forall|k: int| 0 <= k < i ==> s[k].0 != name,
    ensures
        scope_lookup(s, name) == Option::Some(s[i].1),
    decreases i,
{
    if i > 0 {
        lemma_scope_lookup_found(s.drop_first(), name, i - 1);
    }
}

proof fn lemma_scope_lookup_none(s: Seq<(Seq<char>, ValueV)>, name: Seq<char>)
    requires
        forall|k: int| 0 <= k < s.len() ==> s[k].0 != name,
    ensures
        scope_lookup(s, name) is None,
    decreases s.len(),
{
    if s.len() > 0 {
        lemma_scope_lookup_none(s.drop_first(), name);
    }
}

proof fn lemma_scope_set_update(s: Seq<(Seq<char>, ValueV)>, name: Seq<char>, v: ValueV, i: int)
    requires
        0 <= i < s.len(),
        s[i].0 == name,
        forall|k: int| 0 <= k < i ==> s[k].0 != name,
    ensures
        scope_set(s, name, v) == s.update(i, (name, v)),
    decreases i,
{
    if i == 0 {
        assert(seq![(name, v)] + s.drop_first() =~= s.update(0, (name, v)));
    } else {
        lemma_scope_set_update(s.drop_first(), name, v, i - 1);
        assert(seq![s[0]] + s.drop_first().update(i - 1, (name, v)) =~= s.update(i, (name, v)));
    }
}

proof fn lemma_scope_set_append(s: Seq<(Seq<char>, ValueV)>, name: Seq<char>, v: ValueV)
    requires
        forall|k: int| 0 <= k < s.len() ==> s[k].0 != name,
    ensures
        scope_set(s, name, v) == s.push((name, v)),
    decreases s.len(),
{
    if s.len() == 0 {
        assert(seq![(name, v)] =~= s.push((name, v)));
    } else {
        lemma_scope_set_append(s.drop_first(), name, v);
        assert(seq![s[0]] + s.drop_first().push((name, v)) =~= s.push((name, v)));
    }
}

proof fn lemma_env_assign_at(
    env: Seq<Seq<(Seq<char>, ValueV)>>,
    name: Seq<char>,
    v: ValueV,
    j: int,
)
    requires
        0 <= j < env.len(),
        scope_lookup(env[j], name) is Some,
        forall|k: int| j < k < env.len() ==> scope_lookup(env[k], name) is None,
    ensures
        env_assign(env, name, v) == Option::Some(env.update(j, scope_set(env[j], name, v))),
    decreases env.len(),
{
    if j == env.len() - 1 {
        assert(env.drop_last().push(scope_set(env.last(), name, v)) =~= env.update(
            j,
            scope_set(env[j], name, v),
        ));
    } else {
        lemma_env_assign_at(env.drop_last(), name, v, j);
        assert(env.drop_last()[j] == env[j]);
        assert(env.drop_last().update(j, scope_set(env[j], name, v)).push(env.last()) =~= env
            .update(j, scope_set(env[j], name, v)));
    }
}

proof fn lemma_env_assign_none(env: Seq<Seq<(Seq<char>, ValueV)>>, name: Seq<char>, v: ValueV)
    requires
        forall|k: int| 0 <= k < env.len() ==> scope_lookup(env[k], name) is None,
    ensures
        env_assign(env, name, v) is None,
    decreases env.len(),
{
    if env.len() > 0 {
        lemma_env_assign_none(env.drop_last(), name, v);
    }
}

/// One scope: name-to-value bindings in insertion order.
#[derive(Debug)]
pub struct Scope {
    pub entries: Vec<(String, Value)>,
}

impl View for Scope {
    type V = Seq<(Seq<char>, ValueV)>;

    open spec fn view(&self) -> Seq<(Seq<char>, ValueV)> {
        self.entries@.map_values(|p: (String, Value)| (p.0@, p.1@))
    }
}

impl Scope {
    /// An empty scope.
    pub fn new() -> (r: Scope)
        ensures
            r@ == Seq::<(Seq<char>, ValueV)>::empty(),
    {
        let r = Scope { entries: Vec::new() };
        proof {
            assert(r@ =~= Seq::<(Seq<char>, ValueV)>::empty());
        }
        r
    }

    /// The value bound to `name` in this scope, if any.
    fn get_val(&self, name: &String) -> (r: Option<Value>)
        ensures
            match scope_lookup(self@, name@) {
                Option::Some(v) => r is Some && r->0@ == v,
                Option::None => r is None,
            },
    {
        let n = self.entries.len();
        let mut i: usize = 0;
        while i < n
            invariant
                n == self.entries.len(),
                i <= n,
                forall|k: int| 0 <= k < i ==> self@[k].0 != name@,
            decreases n - i,
        {
            if self.entries[i].0 == *name {
                proof {
                    assert(self@[i as int].0 == name@);
                    lemma_scope_lookup_found(self@, name@, i as int);
                }
                return Option::Some(self.entries[i].1.clone());
            }
            proof {
                assert(self@[i as int].0 == self.entries@[i as int].0@);
            }
            i = i + 1;
        }
        proof {
            lemma_scope_lookup_none(self@, name@);
        }
        Option::None
    }

    /// Binds `name` to `val` in this scope, overwriting any earlier binding.
    fn set_val(&mut self, name: &String, val: Value)
        ensures
            final(self)@ == scope_set(old(self)@, name@, val@),
    {
        let n = self.entries.len();
        let mut i: usize = 0;
        while i < n
            invariant
                n == self.entries.len(),
                self.entries == old(self).entries,
                i <= n,
                forall|k: int| 0 <= k < i ==> self@[k].0 != name@,
            decreases n - i,
        {
            if self.entries[i].0 == *name {
                proof {
                    assert(self@[i as int].0 == name@);
                    lemma_scope_set_update(self@, name@, val@, i as int);
                }
                let ghost pre = self@;
                self.entries.set(i, (name.clone(), val));
                proof {
                    assert(self@ =~= pre.update(i as int, (name@, val@)));
                }
                return ;
            }
            proof {
                assert(self@[i as int].0 == self.entries@[i as int].0@);
            }
            i = i + 1;
        }
        proof {
            lemma_scope_set_append(self@, name@, val@);
        }
        let ghost pre = self@;
        self.entries.push((name.clone(), val));
        proof {
            assert(self@ =~= pre.push((name@, val@)));
        }
    }
}

/// The environment: a nonempty stack of scopes, the globals at the bottom
/// and the innermost scope on top.
#[derive(Debug)]
pub struct Environment {
    pub scopes: Vec<Scope>,
}

impl View for Environment {
    type V = Seq<Seq<(Seq<char>, ValueV)>>;

    open spec fn view(&self) -> Seq<Seq<(Seq<char>, ValueV)>> {
        self.scopes@.map_values(|s: Scope| s@)
    }
}

impl Environment {
    /// There is always at least the global scope.
    pub open spec fn wf(&self) -> bool {
        self.scopes.len() >= 1
    }

    /// A fresh environment holding one empty global scope.
    pub fn new() -> (r: Environment)
        ensures
            r.wf(),
            r@ == seq![Seq::<(Seq<char>, ValueV)>::empty()],
    {
        let mut scopes: Vec<Scope> = Vec::new();
        scopes.push(Scope::new());
        let r = Environment { scopes };
        proof {
            assert(r@ =~= seq![Seq::<(Seq<char>, ValueV)>::empty()]);
        }
        r
    }

    /// Enters a block or call: pushes an empty innermost scope.
    pub fn push_scope(&mut self)
        ensures
            final(self).wf(),
            final(self)@ == old(self)@.push(Seq::<(Seq<char>, ValueV)>::empty()),
    {
        let ghost pre = self@;
        self.scopes.push(Scope::new());
        proof {
            assert(self@ =~= pre.push(Seq::<(Seq<char>, ValueV)>::empty()));
        }
    }

    /// Leaves a block or call: drops the innermost scope.
    pub fn pop_scope(&mut self)
        requires
            old(self).scopes.len() >= 2,
        ensures
            final(self).wf(),
            final(self)@ == old(self)@.drop_last(),
    {
        let ghost pre = self@;
        let _ = self.scopes.pop();
        proof {
            assert(self@ =~= pre.drop_last());
        }
    }

    /// Declares `name` in the innermost scope, overwriting a previous
    /// declaration there; outer scopes are untouched.
    pub fn define(&mut self, name: &Symbol, val: Value)
        requires
            old(self).wf(),
        ensures
            final(self).wf(),
            final(self)@ == env_define(old(self)@, name@.name, val@),
    {
        let j = self.scopes.len() - 1;
        let ghost pre = self@;
        let mut tmp = Scope::new();
        self.scopes.set_and_swap(j, &mut tmp);
        tmp.set_val(&name.name, val);
        self.scopes.set_and_swap(j, &mut tmp);
        proof {
            assert(pre[j as int] == old(self).scopes@[j as int]@);
            assert(self@ =~= pre.update(j as int, scope_set(pre[j as int], name@.name, val@)));
            assert(pre.last() == pre[j as int]);
        }
    }

    /// Reads the innermost binding of `name`; an absent name is an
    /// undefined-variable error carrying the symbol's position.
    pub fn get(&self, name: &Symbol) -> (r: Result<Value, Error>)
        requires
            self.wf(),
        ensures
            match env_lookup(self@, name@.name) {
                Option::Some(v) => r is Ok && r->Ok_0@ == v,
                Option::None => r matches Err(e) && e@ == (ErrorV::UndefinedVariable {
                    name: name@.name,
                    line: name@.line,
                    col: name@.col,
                }),
            },
    {
        let mut j = self.scopes.len();
        proof {
            assert(self@.subrange(0, j as int) =~= self@);
        }
        loop
            invariant
                self.wf(),
                j <= self.scopes.len(),
                env_lookup(self@, name@.name) == env_lookup(
                    self@.subrange(0, j as int),
                    name@.name,
                ),
            ensures
                env_lookup(self@, name@.name) is None,
            decreases j,
        {
            if j == 0 {
                break ;
            }
            j = j - 1;
            let ghost prefix = self@.subrange(0, j + 1);
            proof {
                assert(prefix.last() == self@[j as int]);
                assert(self@[j as int] == self.scopes@[j as int]@);
            }
            match self.scopes[j].get_val(&name.name) {
                Option::Some(v) => {
                    return Result::Ok(v);
                },
                Option::None => {
                    proof {
                        assert(prefix.drop_last() =~= self@.subrange(0, j as int));
                    }
                },
            }
        }
        Result::Err(
            Error::UndefinedVariable { name: name.name.clone(), line: name.line, col: name.col },
        )
    }

    /// Rewrites the innermost existing binding of `name`; when no scope
    /// binds it the environment is unchanged and the error carries the
    /// symbol's position. Assignment never creates a binding.
    pub fn assign(&mut self, symbol: &Symbol, value: Value) -> (r: Result<(), Error>)
        requires
            old(self).wf(),
        ensures
            final(self).wf(),
            match env_assign(old(self)@, symbol@.name, value@) {
                Option::Some(e2) => r is Ok && final(self)@ == e2,
                Option::None => {
                    &&& r matches Err(e) && e@ == (ErrorV::UndefinedVariable {
                        name: symbol@.name,
                        line: symbol@.line,
                        col: symbol@.col,
                    })
                    &&& final(self)@ == old(self)@
                },
            },
    {
        let mut j = self.scopes.len();
        loop
            invariant
                self.wf(),
                self.scopes == old(self).scopes,
                j <= self.scopes.len(),
                forall|k: int| j <= k < self@.len() ==> scope_lookup(self@[k], symbol@.name) is None,
            ensures
                self.scopes == old(self).scopes,
                forall|k: int|
                    0 <= k < self@.len() ==> scope_lookup(self@[k], symbol@.name) is None,
            decreases j,
        {
            if j == 0 {
                break ;
            }
            j = j - 1;
            proof {
                assert(self@[j as int] == self.scopes@[j as int]@);
            }
            match self.scopes[j].get_val(&symbol.name) {
                Option::Some(_) => {
                    proof {
                        lemma_env_assign_at(self@, symbol@.name, value@, j as int);
                    }
                    let ghost pre = self@;
                    let mut tmp = Scope::new();
                    self.scopes.set_and_swap(j, &mut tmp);
                    tmp.set_val(&symbol.name, value);
                    self.scopes.set_and_swap(j, &mut tmp);
                    proof {
                        assert(self@ =~= pre.update(
                            j as int,
                            scope_set(pre[j as int], symbol@.name, value@),
                        ));
                    }
                    return Result::Ok(());
                },
                Option::None => {},
            }
        }
        proof {
            lemma_env_assign_none(self@, symbol@.name, value@);
        }
        Result::Err(
            Error::UndefinedVariable {
                name: symbol.name.clone(),
                line: symbol.line,
                col: symbol.col,
            },
        )
    }
}


/// Setting a binding makes it the one lookup finds in that scope.
pub proof fn lemma_scope_set_lookup(s: Seq<(Seq<char>, ValueV)>, name: Seq<char>, v: ValueV)
    ensures
        scope_lookup(scope_set(s, name, v), name) == Option::Some(v),
    decreases s.len(),
{
    if s.len() == 0 {
    } else if s[0].0 == name {
    } else {
        lemma_scope_set_lookup(s.drop_first(), name, v);
        assert((seq![s[0]] + scope_set(s.drop_first(), name, v)).drop_first() =~= scope_set(
            s.drop_first(),
            name,
            v,
        ));
    }
}

/// Declaring a name and then reading it yields the declared value.
pub proof fn lemma_define_then_lookup(
    env: Seq<Seq<(Seq<char>, ValueV)>>,
    name: Seq<char>,
    v: ValueV,
)
    requires
        env.len() >= 1,
    ensures
        env_lookup(env_define(env, name, v), name) == Option::Some(v),
{
    lemma_scope_set_lookup(env.last(), name, v);
    assert(env_define(env, name, v).last() == scope_set(env.last(), name, v));
}

/// Re-declaring a name in the same scope silently overwrites it: after
/// two declarations, reading the name yields the second value.
pub proof fn lemma_redeclare_overwrites(
    env: Seq<Seq<(Seq<char>, ValueV)>>,
    name: Seq<char>,
    v1: ValueV,
    v2: ValueV,
)
    requires
        env.len() >= 1,
    ensures
        env_lookup(env_define(env_define(env, name, v1), name, v2), name) == Option::Some(v2),
{
    lemma_define_then_lookup(env_define(env, name, v1), name, v2);
}

/// Assignment targets exactly the names some scope already binds: it
/// succeeds if and only if lookup would, and never creates a binding.
pub proof fn lemma_assign_iff_bound(
    env: Seq<Seq<(Seq<char>, ValueV)>>,
    name: Seq<char>,
    v: ValueV,
)
    ensures
        (env_assign(env, name, v) is Some) <==> (env_lookup(env, name) is Some),
    decreases env.len(),
{
    if env.len() > 0 {
        if scope_lookup(env.last(), name) is Some {
        } else {
            lemma_assign_iff_bound(env.drop_last(), name, v);
        }
    }
}


/// The names a scope binds, in order.
pub open spec fn scope_keys(s: Seq<(Seq<char>, ValueV)>) -> Seq<Seq<char>> {
    s.map_values(|p: (Seq<char>, ValueV)| p.0)
}

/// Rewriting an existing binding changes a value, never the set of names.
pub proof fn lemma_scope_set_keys(s: Seq<(Seq<char>, ValueV)>, name: Seq<char>, v: ValueV)
    requires
        scope_lookup(s, name) is Some,
    ensures
        scope_keys(scope_set(s, name, v)) == scope_keys(s),
    decreases s.len(),
{
    if s.len() > 0 {
        if s[0].0 == name {
            assert(scope_keys(seq![(name, v)] + s.drop_first()) =~= scope_keys(s));
        } else {
            lemma_scope_set_keys(s.drop_first(), name, v);
            let t = scope_set(s.drop_first(), name, v);
            assert(scope_keys(t).len() == t.len());
            assert(scope_keys(s.drop_first()).len() == s.drop_first().len());
            assert forall|k: int| 0 <= k < s.len() implies (seq![s[0]] + t)[k].0 == s[k].0 by {
                if k > 0 {
                    assert(t[k - 1].0 == scope_keys(t)[k - 1]);
                    assert(scope_keys(s.drop_first())[k - 1] == s.drop_first()[k - 1].0);
                }
            }
            assert(scope_keys(seq![s[0]] + t) =~= scope_keys(s));
        }
    }
}

/// Assignment rewrites one value in place: every scope keeps exactly the
/// names it had.
pub proof fn lemma_env_assign_keys(env: Seq<Seq<(Seq<char>, ValueV)>>, name: Seq<char>, v: ValueV)
    ensures
        env_assign(env, name, v) matches Option::Some(e2) ==> {
            &&& e2.len() == env.len()
            &&& forall|j: int| 0 <= j < env.len() ==> scope_keys(#[trigger] e2[j]) == scope_keys(
                env[j],
            )
        },
    decreases env.len(),
{
    if env.len() > 0 {
        if scope_lookup(env.last(), name) is Some {
            lemma_scope_set_keys(env.last(), name, v);
            let e2 = env.drop_last().push(scope_set(env.last(), name, v));
            assert(forall|j: int|
                0 <= j < env.len() ==> scope_keys(#[trigger] e2[j]) == scope_keys(env[j]));
        } else {
            lemma_env_assign_keys(env.drop_last(), name, v);
            match env_assign(env.drop_last(), name, v) {
                Option::Some(inner) => {
                    let e2 = inner.push(env.last());
                    assert(forall|j: int|
                        0 <= j < env.len() ==> scope_keys(#[trigger] e2[j]) == scope_keys(
                            env[j],
                        ));
                },
                Option::None => {},
            }
        }
    }
}

} // verus!
