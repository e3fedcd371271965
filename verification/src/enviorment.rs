//! The lexically scoped environment: an arena of scope records addressed by
//! stable indices. Each scope maps names to values and names to functions and
//! points at most at one parent, always of a lower index, so chains are
//! acyclic. A closure captures the index of the scope where the function was
//! declared, and every call through it reads and mutates that same scope.

use vstd::prelude::*;
use vstd::pervasive::VecAdditionalExecFns;
use crate::ast::{Stmt, StmtV, stmt_view};
use crate::types::{Type, TypeV, RuntimeError, ErrV};

verus! {

/// A function value: parameter names, a body, and the captured index of the
/// scope that was active at its declaration.
pub struct Function {
    pub params: Vec<String>,
    pub body: Stmt,
    pub closure: usize,
}

/// Mathematical image of a function value.
#[verifier::ext_equal]
pub struct FunctionV {
    pub params: Seq<Seq<char>>,
    pub body: StmtV,
    pub closure: int,
}

impl View for Function {
    type V = FunctionV;

    open spec fn view(&self) -> FunctionV {
        FunctionV {
            params: self.params@.map_values(|p: String| p@),
            body: stmt_view(self.body),
            closure: self.closure as int,
        }
    }
}

impl Clone for Function {
    fn clone(&self) -> (r: Function)
        ensures
            r@ == self@,
            r.closure == self.closure,
    {
        Function {
            params: crate::ast::clone_strings(&self.params),
            body: crate::ast::clone_stmt(&self.body),
            closure: self.closure,
        }
    }
}

/// One scope record: the local bindings and the parent index.
pub struct Scope {
    pub vars: Vec<(String, Type)>,
    pub funs: Vec<(String, Function)>,
    pub parent: Option<usize>,
}

/// Mathematical image of a scope record.
#[verifier::ext_equal]
pub struct ScopeV {
    pub vars: Seq<(Seq<char>, TypeV)>,
    pub funs: Seq<(Seq<char>, FunctionV)>,
    pub parent: Option<int>,
}

/// Image of a vector of variable bindings.
pub open spec fn vars_view(s: Seq<(String, Type)>) -> Seq<(Seq<char>, TypeV)> {
    s.map_values(|p: (String, Type)| (p.0@, p.1@))
}

/// Image of a vector of function bindings.
pub open spec fn funs_view(s: Seq<(String, Function)>) -> Seq<(Seq<char>, FunctionV)> {
    s.map_values(|p: (String, Function)| (p.0@, p.1@))
}

impl View for Scope {
    type V = ScopeV;

    open spec fn view(&self) -> ScopeV {
        ScopeV {
            vars: vars_view(self.vars@),
            funs: funs_view(self.funs@),
            parent: match self.parent {
                Some(p) => Some(p as int),
                None => None,
            },
        }
    }
}

/// Index of the first entry bound to `name`, or -1 if none is.
pub open spec fn find_key<V>(s: Seq<(Seq<char>, V)>, name: Seq<char>) -> int
    decreases s.len(),
{
    if s.len() == 0 {
        -1
    } else if s[0].0 == name {
        0
    } else {
        let r = find_key(s.drop_first(), name);
        if r == -1 {
            -1
        } else {
            r + 1
        }
    }
}

/// `find_key` returns -1 exactly when no entry is bound to `name`; otherwise
/// it returns the first index bound to it.
pub proof fn lemma_find_key<V>(s: Seq<(Seq<char>, V)>, name: Seq<char>)
    ensures
        find_key(s, name) == -1 ==> forall|j: int| 0 <= j < s.len() ==> (#[trigger] s[j]).0 != name,
        find_key(s, name) != -1 ==> 0 <= find_key(s, name) < s.len() && s[find_key(s, name)].0
            == name && forall|j: int| 0 <= j < find_key(s, name) ==> (#[trigger] s[j]).0 != name,
    decreases s.len(),
{
    if s.len() > 0 && s[0].0 != name {
        lemma_find_key(s.drop_first(), name);
        assert forall|j: int| 1 <= j < s.len() implies s.drop_first()[j - 1] == s[j] by {}
    }
}

/// Converse characterization: the first index bound to `name` is what
/// `find_key` returns.
pub proof fn lemma_find_key_is<V>(s: Seq<(Seq<char>, V)>, name: Seq<char>, i: int)
    requires
        0 <= i < s.len(),
        s[i].0 == name,
        forall|j: int| 0 <= j < i ==> (#[trigger] s[j]).0 != name,
    ensures
        find_key(s, name) == i,
    decreases s.len(),
{
    if i > 0 {
        assert forall|j: int| 0 <= j < i - 1 implies (#[trigger] s.drop_first()[j]).0 != name by {
            assert(s.drop_first()[j] == s[j + 1]);
        }
        assert(s.drop_first()[i - 1] == s[i]);
        lemma_find_key_is(s.drop_first(), name, i - 1);
    }
}

/// Converse characterization: where no entry is bound to `name`, `find_key`
/// returns -1.
pub proof fn lemma_find_key_none<V>(s: Seq<(Seq<char>, V)>, name: Seq<char>)
    requires
        forall|j: int| 0 <= j < s.len() ==> (#[trigger] s[j]).0 != name,
    ensures
        find_key(s, name) == -1,
    decreases s.len(),
{
    if s.len() > 0 {
        assert forall|j: int| 0 <= j < s.len() - 1 implies (#[trigger] s.drop_first()[j]).0
            != name by {
            assert(s.drop_first()[j] == s[j + 1]);
        }
        lemma_find_key_none(s.drop_first(), name);
    }
}

/// The entry bound to `name`, if any.
pub open spec fn assoc<V>(s: Seq<(Seq<char>, V)>, name: Seq<char>) -> Option<V> {
    if find_key(s, name) == -1 {
        None
    } else {
        Some(s[find_key(s, name)].1)
    }
}

/// Binds `name` to `v`: in place where an entry already exists, appended
/// otherwise.
pub open spec fn assoc_set<V>(s: Seq<(Seq<char>, V)>, name: Seq<char>, v: V) -> Seq<
    (Seq<char>, V),
> {
    if find_key(s, name) == -1 {
        s.push((name, v))
    } else {
        s.update(find_key(s, name), (name, v))
    }
}

/// Rebinding then reading gives the new value for the bound name and leaves
/// every other name as it was.
pub proof fn lemma_assoc_set<V>(s: Seq<(Seq<char>, V)>, name: Seq<char>, v: V, other: Seq<char>)
    ensures
        assoc(assoc_set(s, name, v), other) == if other == name {
            Some(v)
        } else {
            assoc(s, other)
        },
{
    let s2 = assoc_set(s, name, v);
    let k = find_key(s, name);
    lemma_find_key(s, name);
    lemma_find_key(s, other);
    if other == name {
        if k == -1 {
            lemma_find_key_is(s2, name, s.len() as int);
        } else {
            lemma_find_key_is(s2, name, k);
        }
    } else {
        let k2 = find_key(s, other);
        if k2 == -1 {
            lemma_find_key_none(s2, other);
        } else {
            lemma_find_key_is(s2, other, k2);
            assert(s2[k2] == s[k2]);
        }
    }
}

/// Well-formedness of the arena: every parent index points strictly below its
/// child, so chains are acyclic; and every stored closure index points at a
/// scope of the arena.
pub open spec fn wf_env(env: Seq<ScopeV>) -> bool {
    &&& forall|i: int| 0 <= i < env.len() ==> match (#[trigger] env[i]).parent {
        Some(p) => 0 <= p < i,
        None => true,
    }
    &&& forall|i: int, j: int|
        0 <= i < env.len() && 0 <= j < env[i].funs.len() ==> 0 <= (#[trigger] env[i].funs[j]).1.closure
            < env.len()
}

/// Resolution through the scope chain: the first scope from `s` toward the
/// root that binds `name` gives its value.
pub open spec fn lookup_var(env: Seq<ScopeV>, s: int, name: Seq<char>) -> Option<TypeV>
    decreases s,
        when 0 <= s < env.len() && wf_env(env)
{
    match assoc(env[s].vars, name) {
        Some(v) => Some(v),
        None => match env[s].parent {
            Some(p) => lookup_var(env, p, name),
            None => None,
        },
    }
}

/// Resolution of a function name through the scope chain.
pub open spec fn lookup_fun(env: Seq<ScopeV>, s: int, name: Seq<char>) -> Option<FunctionV>
    decreases s,
        when 0 <= s < env.len() && wf_env(env)
{
    match assoc(env[s].funs, name) {
        Some(f) => Some(f),
        None => match env[s].parent {
            Some(p) => lookup_fun(env, p, name),
            None => None,
        },
    }
}

/// Rebinds `name` in the scope nearest to `s` that already binds it; where no
/// scope does, the arena is unchanged.
pub open spec fn update_var(env: Seq<ScopeV>, s: int, name: Seq<char>, v: TypeV) -> Seq<ScopeV>
    decreases s,
        when 0 <= s < env.len() && wf_env(env)
{
    if find_key(env[s].vars, name) != -1 {
        env.update(
            s,
            ScopeV {
                vars: assoc_set(env[s].vars, name, v),
                funs: env[s].funs,
                parent: env[s].parent,
            },
        )
    } else {
        match env[s].parent {
            Some(p) => update_var(env, p, name, v),
            None => env,
        }
    }
}

/// Binds `name` to `v` in the local bindings of scope `s` alone.
pub open spec fn define_var(env: Seq<ScopeV>, s: int, name: Seq<char>, v: TypeV) -> Seq<ScopeV> {
    env.update(
        s,
        ScopeV { vars: assoc_set(env[s].vars, name, v), funs: env[s].funs, parent: env[s].parent },
    )
}

/// Binds `name` to the function `f` in the local function bindings of scope
/// `s` alone.
pub open spec fn define_fun(env: Seq<ScopeV>, s: int, name: Seq<char>, f: FunctionV) -> Seq<
    ScopeV,
> {
    env.update(
        s,
        ScopeV { vars: env[s].vars, funs: assoc_set(env[s].funs, name, f), parent: env[s].parent },
    )
}

/// A fresh empty scope below `parent`.
pub open spec fn child_scope(parent: int) -> ScopeV {
    ScopeV { vars: Seq::empty(), funs: Seq::empty(), parent: Some(parent) }
}

/// An arena whose scopes kept their parents and function bindings stays
/// well-formed, whatever happened to the variable bindings.
pub proof fn lemma_wf_vars_only(prev: Seq<ScopeV>, cur: Seq<ScopeV>)
    requires
        wf_env(prev),
        cur.len() == prev.len(),
        forall|i: int| 0 <= i < prev.len() ==> (#[trigger] cur[i]).parent == prev[i].parent && cur[i].funs
            == prev[i].funs,
    ensures
        wf_env(cur),
{
    assert forall|i: int| 0 <= i < cur.len() implies match (#[trigger] cur[i]).parent {
        Some(p) => 0 <= p < i,
        None => true,
    } by {
        assert(cur[i].parent == prev[i].parent);
    }
    assert forall|i: int, j: int| 0 <= i < cur.len() && 0 <= j < cur[i].funs.len() implies 0 <= (
    #[trigger] cur[i].funs[j]).1.closure < cur.len() by {
        assert(cur[i].funs == prev[i].funs);
        assert(0 <= prev[i].funs[j].1.closure < prev.len());
    }
}

/// Updating the nearest binding scope preserves well-formedness, the arena's
/// length, and every scope's parent and function bindings.
pub proof fn lemma_update_var_frame(env: Seq<ScopeV>, s: int, name: Seq<char>, v: TypeV)
    requires
        wf_env(env),
        0 <= s < env.len(),
    ensures
        update_var(env, s, name, v).len() == env.len(),
        forall|i: int| 0 <= i < env.len() ==> (#[trigger] update_var(env, s, name, v)[i]).parent
            == env[i].parent && update_var(env, s, name, v)[i].funs == env[i].funs,
        forall|i: int| s < i < env.len() ==> #[trigger] update_var(env, s, name, v)[i] == env[i],
        wf_env(update_var(env, s, name, v)),
    decreases s,
{
    if find_key(env[s].vars, name) != -1 {
        lemma_wf_vars_only(env, update_var(env, s, name, v));
    } else {
        match env[s].parent {
            Some(p) => {
                lemma_update_var_frame(env, p, name, v);
            },
            None => {},
        }
    }
}

/// Two well-formed arenas that agree on every scope up to `s` resolve every
/// name identically from `s`.
pub proof fn lemma_lookup_agrees(
    env: Seq<ScopeV>,
    env2: Seq<ScopeV>,
    s: int,
    name: Seq<char>,
)
    requires
        wf_env(env),
        wf_env(env2),
        0 <= s < env.len(),
        s < env2.len(),
        forall|i: int| 0 <= i <= s ==> #[trigger] env2[i] == env[i],
    ensures
        lookup_var(env2, s, name) == lookup_var(env, s, name),
    decreases s,
{
    assert(env2[s] == env[s]);
    match env[s].parent {
        Some(p) => {
            lemma_lookup_agrees(env, env2, p, name);
        },
        None => {},
    }
}

/// Defining a function with a closure index inside the arena preserves
/// well-formedness.
pub proof fn lemma_wf_define_fun(env: Seq<ScopeV>, s: int, name: Seq<char>, f: FunctionV)
    requires
        wf_env(env),
        0 <= s < env.len(),
        0 <= f.closure < env.len(),
    ensures
        wf_env(define_fun(env, s, name, f)),
{
    let env2 = define_fun(env, s, name, f);
    let funs2 = assoc_set(env[s].funs, name, f);
    lemma_find_key(env[s].funs, name);
    assert forall|i: int| 0 <= i < env2.len() implies match (#[trigger] env2[i]).parent {
        Some(p) => 0 <= p < i,
        None => true,
    } by {
        assert(env2[i].parent == env[i].parent);
    }
    assert forall|i: int, j: int| 0 <= i < env2.len() && 0 <= j < env2[i].funs.len() implies 0 <= (
    #[trigger] env2[i].funs[j]).1.closure < env2.len() by {
        if i == s {
            assert(env2[i].funs == funs2);
            if find_key(env[s].funs, name) == -1 {
                if j < env[s].funs.len() {
                    assert(funs2[j] == env[s].funs[j]);
                } else {
                    assert(funs2[j] == (name, f));
                }
            } else {
                if j == find_key(env[s].funs, name) {
                    assert(funs2[j] == (name, f));
                } else {
                    assert(funs2[j] == env[s].funs[j]);
                }
            }
        } else {
            assert(env2[i].funs == env[i].funs);
        }
    }
}

/// The chained-scope environment arena.
pub struct Environment {
    scopes: Vec<Scope>,
}

impl View for Environment {
    type V = Seq<ScopeV>;

    closed spec fn view(&self) -> Seq<ScopeV> {
        self.scopes@.map_values(|sc: Scope| sc@)
    }
}

/// Index of the first local variable slot bound to `name`.
fn find_var_slot(vars: &Vec<(String, Type)>, name: &String) -> (r: Option<usize>)
    ensures
        match r {
            Some(i) => i < vars@.len() && find_key(vars_view(vars@), name@) == i,
            None => find_key(vars_view(vars@), name@) == -1,
        },
{
    let mut i: usize = 0;
    while i < vars.len()
        invariant
            i <= vars@.len(),
            forall|j: int| 0 <= j < i ==> (#[trigger] vars_view(vars@)[j]).0 != name@,
        decreases vars@.len() - i,
    {
        if vars[i].0.eq(name) {
            proof {
                lemma_find_key_is(vars_view(vars@), name@, i as int);
            }
            return Some(i);
        }
        i = i + 1;
    }
    proof {
        lemma_find_key_none(vars_view(vars@), name@);
    }
    None
}

/// Index of the first local function slot bound to `name`.
fn find_fun_slot(funs: &Vec<(String, Function)>, name: &String) -> (r: Option<usize>)
    ensures
        match r {
            Some(i) => i < funs@.len() && find_key(funs_view(funs@), name@) == i,
            None => find_key(funs_view(funs@), name@) == -1,
        },
{
    let mut i: usize = 0;
    while i < funs.len()
        invariant
            i <= funs@.len(),
            forall|j: int| 0 <= j < i ==> (#[trigger] funs_view(funs@)[j]).0 != name@,
        decreases funs@.len() - i,
    {
        if funs[i].0.eq(name) {
            proof {
                lemma_find_key_is(funs_view(funs@), name@, i as int);
            }
            return Some(i);
        }
        i = i + 1;
    }
    proof {
        lemma_find_key_none(funs_view(funs@), name@);
    }
    None
}

impl Environment {
    /// A fresh arena holding only the root scope.
    pub fn new() -> (e: Environment)
        ensures
            e@ =~= seq![
                ScopeV { vars: Seq::<(Seq<char>, TypeV)>::empty(), funs: Seq::<
                    (Seq<char>, FunctionV),
                >::empty(), parent: None },
            ],
            wf_env(e@),
    {
        let mut scopes: Vec<Scope> = Vec::new();
        scopes.push(Scope { vars: Vec::new(), funs: Vec::new(), parent: None });
        let e = Environment { scopes };
        proof {
            assert(e@ =~~= seq![
                ScopeV { vars: Seq::<(Seq<char>, TypeV)>::empty(), funs: Seq::<
                    (Seq<char>, FunctionV),
                >::empty(), parent: None },
            ]);
        }
        e
    }

    /// Appends a fresh scope whose parent is `parent` and hands back its
    /// index.
    pub fn new_scope(&mut self, parent: usize) -> (id: usize)
        requires
            parent < old(self)@.len(),
            wf_env(old(self)@),
        ensures
            id == old(self)@.len(),
            final(self)@ == old(self)@.push(child_scope(parent as int)),
            wf_env(final(self)@),
    {
        let id = self.scopes.len();
        self.scopes.push(Scope { vars: Vec::new(), funs: Vec::new(), parent: Some(parent) });
        proof {
            assert(self@ =~~= old(self)@.push(child_scope(parent as int)));
            assert forall|i: int| 0 <= i < self@.len() implies match (#[trigger] self@[i]).parent {
                Some(p) => 0 <= p < i,
                None => true,
            } by {
                if i < old(self)@.len() {
                    assert(self@[i] == old(self)@[i]);
                }
            }
            assert forall|i: int, j: int|
                0 <= i < self@.len() && 0 <= j < self@[i].funs.len() implies 0 <= (#[trigger] self@[i].funs[j]).1.closure
                < self@.len() by {
                if i < old(self)@.len() {
                    assert(self@[i] == old(self)@[i]);
                    assert(0 <= old(self)@[i].funs[j].1.closure < old(self)@.len());
                } else {
                    assert(self@[i].funs.len() == 0);
                }
            }
        }
        id
    }

    /// Defines or overwrites `name` in the local bindings of `scope` alone.
    pub fn define(&mut self, scope: usize, name: String, value: Type)
        requires
            scope < old(self)@.len(),
            wf_env(old(self)@),
        ensures
            final(self)@ == define_var(old(self)@, scope as int, name@, value@),
            final(self)@.len() == old(self)@.len(),
            wf_env(final(self)@),
    {
        let ghost name_v = name@;
        let slot = find_var_slot(&self.scopes[scope].vars, &name);
        match slot {
            Some(i) => {
                self.scopes[scope].vars.set(i, (name, value));
            },
            None => {
                self.scopes[scope].vars.push((name, value));
            },
        }
        proof {
            assert(vars_view(self.scopes@[scope as int].vars@) =~= assoc_set(
                vars_view(old(self).scopes@[scope as int].vars@),
                name_v,
                value@,
            ));
            assert(self@ =~~= define_var(old(self)@, scope as int, name_v, value@));
            lemma_wf_vars_only(old(self)@, self@);
        }
    }

    /// Defines or overwrites the function `name` in the local function
    /// bindings of `scope` alone.
    pub fn define_function(&mut self, scope: usize, name: String, function: Function)
        requires
            scope < old(self)@.len(),
            wf_env(old(self)@),
            0 <= function@.closure < old(self)@.len(),
        ensures
            final(self)@ == define_fun(old(self)@, scope as int, name@, function@),
            final(self)@.len() == old(self)@.len(),
            wf_env(final(self)@),
    {
        let ghost name_v = name@;
        let ghost fun_v = function@;
        let slot = find_fun_slot(&self.scopes[scope].funs, &name);
        match slot {
            Some(i) => {
                self.scopes[scope].funs.set(i, (name, function));
            },
            None => {
                self.scopes[scope].funs.push((name, function));
            },
        }
        proof {
            assert(funs_view(self.scopes@[scope as int].funs@) =~= assoc_set(
                funs_view(old(self).scopes@[scope as int].funs@),
                name_v,
                fun_v,
            ));
            assert(self@ =~~= define_fun(old(self)@, scope as int, name_v, fun_v));
            lemma_wf_define_fun(old(self)@, scope as int, name_v, fun_v);
        }
    }

    /// Resolves `name` through the chain from `scope` toward the root.
    fn lookup(&self, scope: usize, name: &String) -> (r: Option<Type>)
        requires
            scope < self@.len(),
            wf_env(self@),
        ensures
            match r {
                Some(t) => lookup_var(self@, scope as int, name@) == Some(t@),
                None => lookup_var(self@, scope as int, name@) is None,
            },
    {
        let mut cur: usize = scope;
        loop
            invariant
                cur < self@.len(),
                wf_env(self@),
                lookup_var(self@, scope as int, name@) == lookup_var(self@, cur as int, name@),
            decreases cur,
        {
            let sc = &self.scopes[cur];
            match find_var_slot(&sc.vars, name) {
                Some(i) => {
                    assert(assoc(self@[cur as int].vars, name@) == Some(
                        vars_view(sc.vars@)[i as int].1,
                    ));
                    return Some(sc.vars[i].1.clone());
                },
                None => {
                    assert(assoc(self@[cur as int].vars, name@) is None);
                    match sc.parent {
                        Some(p) => {
                            assert(self@[cur as int].parent == Some(p as int));
                            cur = p;
                        },
                        None => {
                            assert(self@[cur as int].parent is None);
                            return None;
                        },
                    }
                },
            }
        }
    }

    /// Looks a variable up; absence anywhere in the chain is an undefined
    /// variable error.
    pub fn get(&self, scope: usize, name: &String) -> (r: Result<Type, RuntimeError>)
        requires
            scope < self@.len(),
            wf_env(self@),
        ensures
            match lookup_var(self@, scope as int, name@) {
                Some(v) => r matches Ok(t) && t@ == v,
                None => r matches Err(e) && e@ == ErrV::UndefinedVariable(name@),
            },
    {
        match self.lookup(scope, name) {
            Some(t) => Ok(t),
            None => Err(RuntimeError::UndefinedVariable(name.clone())),
        }
    }

    /// Whether `name` is visible anywhere in the chain from `scope`.
    pub fn is_defined(&self, scope: usize, name: &String) -> (r: bool)
        requires
            scope < self@.len(),
            wf_env(self@),
        ensures
            r == (lookup_var(self@, scope as int, name@) is Some),
    {
        match self.lookup(scope, name) {
            Some(_) => true,
            None => false,
        }
    }

    /// Rebinds `name` in the nearest scope that already binds it; absence
    /// anywhere is an undefined variable error and leaves the arena as it
    /// was.
    pub fn update(&mut self, scope: usize, name: String, value: Type) -> (r: Result<
        (),
        RuntimeError,
    >)
        requires
            scope < old(self)@.len(),
            wf_env(old(self)@),
        ensures
            final(self)@.len() == old(self)@.len(),
            wf_env(final(self)@),
            match r {
                Ok(_) => lookup_var(old(self)@, scope as int, name@) is Some && final(self)@
                    == update_var(old(self)@, scope as int, name@, value@),
                Err(e) => lookup_var(old(self)@, scope as int, name@) is None && final(self)@
                    == old(self)@ && e@ == ErrV::UndefinedVariable(name@),
            },
    {
        let ghost name_v = name@;
        let mut cur: usize = scope;
        loop
            invariant
                cur < old(self)@.len(),
                wf_env(old(self)@),
                self@ == old(self)@,
                name@ == name_v,
                lookup_var(old(self)@, scope as int, name_v) == lookup_var(
                    old(self)@,
                    cur as int,
                    name_v,
                ),
                update_var(old(self)@, scope as int, name_v, value@) == update_var(
                    old(self)@,
                    cur as int,
                    name_v,
                    value@,
                ),
            decreases cur,
        {
            let slot = find_var_slot(&self.scopes[cur].vars, &name);
            match slot {
                Some(i) => {
                    self.scopes[cur].vars.set(i, (name, value));
                    proof {
                        assert(vars_view(self.scopes@[cur as int].vars@) =~= assoc_set(
                            vars_view(old(self).scopes@[cur as int].vars@),
                            name_v,
                            value@,
                        ));
                        assert(self@ =~~= update_var(old(self)@, cur as int, name_v, value@));
                        lemma_update_var_frame(old(self)@, cur as int, name_v, value@);
                        lemma_wf_vars_only(old(self)@, self@);
                    }
                    return Ok(());
                },
                None => {
                    match self.scopes[cur].parent {
                        Some(p) => {
                            assert(old(self)@[cur as int].parent == Some(p as int));
                            cur = p;
                        },
                        None => {
                            assert(old(self)@[cur as int].parent is None);
                            return Err(RuntimeError::UndefinedVariable(name));
                        },
                    }
                },
            }
        }
    }

    /// Resolves a function name through the chain from `scope`; the returned
    /// function is a copy whose image equals the stored one.
    pub fn get_function(&self, scope: usize, name: &String) -> (r: Option<Function>)
        requires
            scope < self@.len(),
            wf_env(self@),
        ensures
            match r {
                Some(f) => lookup_fun(self@, scope as int, name@) == Some(f@) && f.closure
                    < self@.len(),
                None => lookup_fun(self@, scope as int, name@) is None,
            },
    {
        let mut cur: usize = scope;
        loop
            invariant
                cur < self@.len(),
                wf_env(self@),
                lookup_fun(self@, scope as int, name@) == lookup_fun(self@, cur as int, name@),
            decreases cur,
        {
            let sc = &self.scopes[cur];
            match find_fun_slot(&sc.funs, name) {
                Some(i) => {
                    assert(assoc(self@[cur as int].funs, name@) == Some(
                        funs_view(sc.funs@)[i as int].1,
                    ));
                    assert(0 <= self@[cur as int].funs[i as int].1.closure < self@.len());
                    return Some(sc.funs[i].1.clone());
                },
                None => {
                    assert(assoc(self@[cur as int].funs, name@) is None);
                    match sc.parent {
                        Some(p) => {
                            assert(self@[cur as int].parent == Some(p as int));
                            cur = p;
                        },
                        None => {
                            assert(self@[cur as int].parent is None);
                            return None;
                        },
                    }
                },
            }
        }
    }
}

} // verus!
