//! The laws the interpreter obeys, stated over the specification functions
//! and proved once and for all.

use vstd::prelude::*;
use crate::enviorment::{
    assoc_set, child_scope, find_key, lemma_assoc_set, lemma_find_key, lookup_var, update_var,
    wf_env, ScopeV,
};
use crate::evalulator::{eval_expr_s, eval_for_s, eval_stmt_s, StateV, StepV};
use crate::ast::{ExprV, StmtV};
use crate::float::{float_add, float_of_int, float_is_zero};
use crate::types::{
    add_v, div_v, eq_v, ge_v, gt_v, le_v, lt_v, mul_v, sub_v, zero_divisor, ErrV, TypeV,
};

verus! {

/// Arithmetic promotion: adding two integers gives their integer sum
/// whenever it is representable, and any double operand promotes the result
/// of an arithmetic operation to a double.
pub proof fn lemma_arithmetic_promotion(a: i64, b: i64, x: u64, y: u64)
    ensures
        i64::MIN <= a + b <= i64::MAX ==> add_v(TypeV::Int(a), TypeV::Int(b)) == Ok::<
            TypeV,
            ErrV,
        >(TypeV::Int((a + b) as i64)),
        add_v(TypeV::Float(x), TypeV::Float(y)) == Ok::<TypeV, ErrV>(
            TypeV::Float(float_add(x, y)),
        ),
        add_v(TypeV::Int(a), TypeV::Float(y)) == Ok::<TypeV, ErrV>(
            TypeV::Float(float_add(float_of_int(a), y)),
        ),
        add_v(TypeV::Float(x), TypeV::Int(b)) == Ok::<TypeV, ErrV>(
            TypeV::Float(float_add(x, float_of_int(b))),
        ),
        (sub_v(TypeV::Int(a), TypeV::Float(y)) matches Ok(v) && v is Float),
        (mul_v(TypeV::Float(x), TypeV::Int(b)) matches Ok(v) && v is Float),
        !float_is_zero(y) ==> (div_v(TypeV::Int(a), TypeV::Float(y)) matches Ok(v) && v is Float),
{
}

/// Division by a zero divisor — the integer zero or a double zero of either
/// sign — always fails with a division-by-zero error, whatever the dividend.
pub proof fn lemma_division_by_zero(a: TypeV, b: TypeV)
    requires
        zero_divisor(b),
    ensures
        div_v(a, b) == Err::<TypeV, ErrV>(ErrV::DivisionByZero),
{
}

/// Strings order by length alone, under every ordering operator.
pub proof fn lemma_string_order_is_length(s: Seq<char>, t: Seq<char>)
    ensures
        lt_v(TypeV::Str(s), TypeV::Str(t)) == Ok::<TypeV, ErrV>(TypeV::Bool(s.len() < t.len())),
        gt_v(TypeV::Str(s), TypeV::Str(t)) == Ok::<TypeV, ErrV>(TypeV::Bool(s.len() > t.len())),
        le_v(TypeV::Str(s), TypeV::Str(t)) == Ok::<TypeV, ErrV>(TypeV::Bool(s.len() <= t.len())),
        ge_v(TypeV::Str(s), TypeV::Str(t)) == Ok::<TypeV, ErrV>(TypeV::Bool(s.len() >= t.len())),
{
}

/// Values of different variants are simply unequal, never an error.
pub proof fn lemma_equality_is_total(a: TypeV, b: TypeV)
    ensures
        !(a is Int && b is Int) && !(a is Float && b is Float) && !(a is Str && b is Str) && !(
        a is Bool && b is Bool) && !(a is Null && b is Null) && !(a is Range && b is Range)
            ==> !eq_v(a, b),
{
}

/// Calling an undefined function fails with an undefined-function error;
/// calling one with the wrong number of arguments fails with an arity error;
/// reading an undefined variable fails with an undefined-variable error.
pub proof fn lemma_call_errors(
    st: StateV,
    cur: int,
    callee: Seq<char>,
    arguments: Seq<ExprV>,
    n: Seq<char>,
    fuel: nat,
)
    requires
        fuel > 0,
    ensures
        crate::enviorment::lookup_fun(st.env, cur, callee) is None ==> eval_expr_s(
            st,
            cur,
            ExprV::Call { callee: callee, arguments: arguments },
            fuel,
        ).1 == Err::<TypeV, ErrV>(ErrV::UndefinedFunction(callee)),
        (match crate::enviorment::lookup_fun(st.env, cur, callee) {
            Some(f) => f.params.len() != arguments.len() ==> eval_expr_s(
                st,
                cur,
                ExprV::Call { callee: callee, arguments: arguments },
                fuel,
            ).1 == Err::<TypeV, ErrV>(
                ErrV::ArityMismatch { expected: f.params.len(), got: arguments.len() },
            ),
            None => true,
        }),
        lookup_var(st.env, cur, n) is None ==> eval_expr_s(st, cur, ExprV::Var(n), fuel).1 == Err::<
            TypeV,
            ErrV,
        >(ErrV::UndefinedVariable(n)),
{
}

/// A range bound that is a negative integer, or not an integer at all, makes
/// the range construct fail with a type error.
pub proof fn lemma_range_errors(st: StateV, cur: int, inner: ExprV, fuel: nat)
    requires
        fuel > 0,
    ensures
        ({
            let (st1, r1) = eval_expr_s(st, cur, inner, (fuel - 1) as nat);
            match r1 {
                Ok(v) => !(v matches TypeV::Int(k) && k >= 0) ==> eval_expr_s(
                    st,
                    cur,
                    ExprV::Range(Box::new(inner)),
                    fuel,
                ).1 == Err::<TypeV, ErrV>(ErrV::TypeMismatch),
                Err(_) => true,
            }
        }),
{
}

/// Looking a name up after pushing a fresh scope on the arena resolves as it
/// did before the push, for every scope that already existed.
pub proof fn lemma_lookup_frame_push(env: Seq<ScopeV>, sc: ScopeV, s: int, name: Seq<char>)
    requires
        wf_env(env),
        0 <= s < env.len(),
        sc.funs.len() == 0,
        match sc.parent {
            Some(p) => 0 <= p < env.len(),
            None => true,
        },
    ensures
        wf_env(env.push(sc)),
        lookup_var(env.push(sc), s, name) == lookup_var(env, s, name),
    decreases s,
{
    let env2 = env.push(sc);
    assert forall|i: int| 0 <= i < env2.len() implies match (#[trigger] env2[i]).parent {
        Some(p) => 0 <= p < i,
        None => true,
    } by {
        if i < env.len() {
            assert(env2[i] == env[i]);
        } else {
            assert(env2[i] == sc);
        }
    }
    assert forall|i: int, j: int|
        0 <= i < env2.len() && 0 <= j < env2[i].funs.len() implies 0 <= (
    #[trigger] env2[i].funs[j]).1.closure < env2.len() by {
        if i < env.len() {
            assert(env2[i] == env[i]);
            assert(0 <= env[i].funs[j].1.closure < env.len());
        } else {
            assert(env2[i] == sc);
        }
    }
    assert forall|i: int| 0 <= i <= s implies #[trigger] env2[i] == env[i] by {}
    crate::enviorment::lemma_lookup_agrees(env, env2, s, name);
}

/// A closure shares the scope it was declared in: a call made through it
/// resolves a free name in that scope as the scope stands at call time, so
/// bindings made while the block was live stay reachable after the block
/// exits, and mutations made before the call are what the call observes.
pub proof fn lemma_closure_shares_scope(env: Seq<ScopeV>, closure: int, name: Seq<char>)
    requires
        wf_env(env),
        0 <= closure < env.len(),
    ensures
        ({
            let call_env = env.push(child_scope(closure));
            lookup_var(call_env, env.len() as int, name) == lookup_var(env, closure, name)
        }),
{
    let sc = child_scope(closure);
    let call_env = env.push(sc);
    assert forall|i: int| 0 <= i < call_env.len() implies match (#[trigger] call_env[i]).parent {
        Some(p) => 0 <= p < i,
        None => true,
    } by {
        if i < env.len() {
            assert(call_env[i] == env[i]);
        }
    }
    assert forall|i: int, j: int|
        0 <= i < call_env.len() && 0 <= j < call_env[i].funs.len() implies 0 <= (
    #[trigger] call_env[i].funs[j]).1.closure < call_env.len() by {
        if i < env.len() {
            assert(call_env[i] == env[i]);
            assert(0 <= env[i].funs[j].1.closure < env.len());
        } else {
            assert(call_env[i].funs.len() == 0);
        }
    }
    assert(call_env[env.len() as int] == sc);
    crate::enviorment::lemma_find_key_none::<TypeV>(sc.vars, name);
    lemma_lookup_frame_push(env, sc, closure, name);
}

/// Declaring a name that is already visible somewhere in the chain mutates
/// that enclosing binding: reading the name afterwards gives the new value,
/// every other name reads as before, the arena keeps its shape, and where
/// the local scope did not bind the name it still does not — no shadow copy
/// is made.
pub proof fn lemma_redeclare_mutates_enclosing(
    env: Seq<ScopeV>,
    s: int,
    name: Seq<char>,
    v: TypeV,
    other: Seq<char>,
)
    requires
        wf_env(env),
        0 <= s < env.len(),
        lookup_var(env, s, name) is Some,
    ensures
        lookup_var(update_var(env, s, name, v), s, name) == Some(v),
        other != name ==> lookup_var(update_var(env, s, name, v), s, other) == lookup_var(
            env,
            s,
            other,
        ),
        update_var(env, s, name, v).len() == env.len(),
        find_key(env[s].vars, name) == -1 ==> update_var(env, s, name, v)[s] == env[s],
    decreases s,
{
    crate::enviorment::lemma_update_var_frame(env, s, name, v);
    let env2 = update_var(env, s, name, v);
    lemma_find_key(env[s].vars, name);
    if find_key(env[s].vars, name) != -1 {
        lemma_assoc_set(env[s].vars, name, v, name);
        lemma_assoc_set(env[s].vars, name, v, other);
        assert(env2[s].vars == assoc_set(env[s].vars, name, v));
        if other != name && crate::enviorment::assoc(env[s].vars, other) is None {
            // the chains below `s` are untouched
            assert forall|i: int| 0 <= i < env.len() && i != s implies #[trigger] env2[i]
                == env[i] by {}
            match env[s].parent {
                Some(p) => {
                    assert forall|i: int| 0 <= i <= p implies #[trigger] env2[i] == env[i] by {}
                    crate::enviorment::lemma_lookup_agrees(env, env2, p, other);
                },
                None => {},
            }
        }
    } else {
        match env[s].parent {
            Some(p) => {
                assert(crate::enviorment::assoc(env[s].vars, name) is None);
                lemma_redeclare_mutates_enclosing(env, p, name, v, other);
                assert(env2 == update_var(env, p, name, v)) by {
                    reveal_with_fuel(update_var, 2);
                }
                crate::enviorment::lemma_update_var_frame(env, p, name, v);
                assert(env2[s] == env[s]);
            },
            None => {},
        }
    }
}

/// A for-loop over a range of `n` that completes normally runs its body
/// exactly `n` times: with a body that prints one fixed line, exactly `n`
/// copies of that line appear, in order.
pub proof fn lemma_for_runs_n_times(
    st: StateV,
    cur: int,
    var_name: Seq<char>,
    msg: Seq<char>,
    i: i64,
    n: i64,
    last: Option<TypeV>,
    fuel: nat,
)
    ensures
        ({
            let body = StmtV::PrntStmt(ExprV::String(msg));
            let (st1, r1) = eval_for_s(st, cur, var_name, body, i, n, last, fuel);
            r1 is Norm ==> st1.out =~= st.out + Seq::new((if n >= i {
                n - i
            } else {
                0int
            }) as nat, |k: int| msg)
        }),
    decreases fuel,
{
    let body = StmtV::PrntStmt(ExprV::String(msg));
    let (st1, r1) = eval_for_s(st, cur, var_name, body, i, n, last, fuel);
    if i >= n {
        assert(st.out + Seq::new(0, |k: int| msg) =~= st.out);
    } else if fuel == 0 {
    } else {
        let fuel2 = (fuel - 1) as nat;
        let iter_scope = st.env.len() as int;
        let env1 = crate::enviorment::define_var(
            st.env.push(child_scope(cur)),
            iter_scope,
            var_name,
            TypeV::Int(i),
        );
        let st_in = StateV { env: env1, out: st.out };
        let (st2, r2) = eval_stmt_s(st_in, iter_scope, body, fuel2);
        if fuel2 > 0 {
            let (st3, r3) = eval_expr_s(st_in, iter_scope, ExprV::String(msg), (fuel2 - 1) as nat);
            if fuel2 - 1 > 0 {
                assert(r3 == Ok::<TypeV, ErrV>(TypeV::Str(msg)));
                assert(crate::types::text_of(TypeV::Str(msg)) == msg);
            }
        }
        match r2 {
            StepV::Norm(vopt) => {
                let last2 = if vopt is Some {
                    vopt
                } else {
                    last
                };
                lemma_for_runs_n_times(st2, cur, var_name, msg, (i + 1) as i64, n, last2, fuel2);
                if r1 is Norm {
                    assert(st2.out =~= st.out + seq![msg]);
                    assert((st.out + seq![msg]) + Seq::new((n - i - 1) as nat, |k: int| msg)
                        =~= st.out + Seq::new((n - i) as nat, |k: int| msg));
                }
            },
            _ => {},
        }
    }
}

} // verus!
