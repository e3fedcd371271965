//! The tree-walking evaluator. The meaning of every construct is fixed by a
//! fueled specification interpreter over the mathematical images of values,
//! statements and scopes; the executable evaluator is proved to produce
//! exactly the state, output and result of that interpreter. Fuel bounds the
//! work done: a run that would outlast it stops with a resource error, which
//! stands for the unbounded recursion the language itself permits.

use vstd::prelude::*;
use crate::ast::{Expr, ExprV, Stmt, StmtV, stmts_view};
use crate::enviorment::{
    Environment, Function, FunctionV, ScopeV, child_scope, define_fun, define_var, lookup_fun,
    lookup_var, update_var, wf_env,
};
use crate::token::{Token, TokenV};
use crate::types::{
    Type, TypeV, RuntimeError, ErrV, res_view, add_v, sub_v, mul_v, div_v, eq_v, lt_v, gt_v, le_v,
    ge_v, text_of,
};

verus! {

broadcast use vstd::seq_lib::lemma_seq_skip_len, vstd::seq_lib::lemma_seq_skip_index;

/// The whole interpreter state: the scope arena and the lines printed so far.
#[verifier::ext_equal]
pub struct StateV {
    pub env: Seq<ScopeV>,
    pub out: Seq<Seq<char>>,
}

/// How a statement came to its end: normal completion with the value it
/// produced, if any; an in-flight return; or the error that stops the run.
pub enum StepV {
    Norm(Option<TypeV>),
    Ret(TypeV),
    Fail(ErrV),
}

/// What a statement hands back on success: normal completion with an
/// optional produced value, or an in-flight return signal.
pub enum ExecResult {
    Value(Option<Type>),
    Return(Type),
}

/// Image of the lines printed so far.
pub open spec fn out_view(out: Seq<String>) -> Seq<Seq<char>> {
    out.map_values(|s: String| s@)
}

/// Image of a statement's outcome.
pub open spec fn step_view(r: Result<ExecResult, RuntimeError>) -> StepV {
    match r {
        Ok(ExecResult::Value(None)) => StepV::Norm(None),
        Ok(ExecResult::Value(Some(v))) => StepV::Norm(Some(v@)),
        Ok(ExecResult::Return(v)) => StepV::Ret(v@),
        Err(e) => StepV::Fail(e@),
    }
}

/// The operator a binary node applies, by its token.
pub open spec fn apply_binop_s(op: TokenV, a: TypeV, b: TypeV) -> Result<TypeV, ErrV> {
    match op {
        TokenV::Plus => add_v(a, b),
        TokenV::Minus => sub_v(a, b),
        TokenV::Star => mul_v(a, b),
        TokenV::Slash => div_v(a, b),
        TokenV::DblEqual => Ok(TypeV::Bool(eq_v(a, b))),
        TokenV::NotEqual => Ok(TypeV::Bool(!eq_v(a, b))),
        TokenV::LessThan => lt_v(a, b),
        TokenV::GreaterThan => gt_v(a, b),
        TokenV::LessThanEqual => le_v(a, b),
        TokenV::GreaterThanEqual => ge_v(a, b),
        _ => Err(ErrV::TypeMismatch),
    }
}

/// Binds the parameters to the argument values, in order, in scope `s`.
pub open spec fn bind_params(
    env: Seq<ScopeV>,
    s: int,
    params: Seq<Seq<char>>,
    vals: Seq<TypeV>,
) -> Seq<ScopeV>
    decreases params.len(),
{
    if params.len() == 0 {
        env
    } else {
        bind_params(
            define_var(env, s, params[0], vals[0]),
            s,
            params.drop_first(),
            vals.drop_first(),
        )
    }
}

/// Meaning of an expression: the state after its evaluation and the value it
/// produces or the error that stops the run.
pub open spec fn eval_expr_s(st: StateV, cur: int, e: ExprV, fuel: nat) -> (StateV, Result<
    TypeV,
    ErrV,
>)
    decreases fuel,
{
    if fuel == 0 {
        (st, Err(ErrV::OutOfFuel))
    } else {
        let fuel2 = (fuel - 1) as nat;
        match e {
            ExprV::Number(n) => (st, Ok(TypeV::Int(n))),
            ExprV::Float(b) => (st, Ok(TypeV::Float(b))),
            ExprV::String(s) => (st, Ok(TypeV::Str(s))),
            ExprV::Bool(b) => (st, Ok(TypeV::Bool(b))),
            ExprV::Var(n) => match lookup_var(st.env, cur, n) {
                Some(v) => (st, Ok(v)),
                None => (st, Err(ErrV::UndefinedVariable(n))),
            },
            ExprV::Binary { left, op, right } => {
                let (st1, r1) = eval_expr_s(st, cur, *left, fuel2);
                match r1 {
                    Err(e1) => (st1, Err(e1)),
                    Ok(a) => {
                        let (st2, r2) = eval_expr_s(st1, cur, *right, fuel2);
                        match r2 {
                            Err(e2) => (st2, Err(e2)),
                            Ok(b) => (st2, apply_binop_s(op, a, b)),
                        }
                    },
                }
            },
            ExprV::Range(inner) => {
                let (st1, r1) = eval_expr_s(st, cur, *inner, fuel2);
                match r1 {
                    Err(e1) => (st1, Err(e1)),
                    Ok(v) => match v {
                        TypeV::Int(n) => if n >= 0 {
                            (st1, Ok(TypeV::Range(n)))
                        } else {
                            (st1, Err(ErrV::TypeMismatch))
                        },
                        _ => (st1, Err(ErrV::TypeMismatch)),
                    },
                }
            },
            ExprV::Call { callee, arguments } => match lookup_fun(st.env, cur, callee) {
                None => (st, Err(ErrV::UndefinedFunction(callee))),
                Some(f) => if f.params.len() != arguments.len() {
                    (
                        st,
                        Err(
                            ErrV::ArityMismatch {
                                expected: f.params.len(),
                                got: arguments.len(),
                            },
                        ),
                    )
                } else {
                    let (st1, rargs) = eval_args_s(st, cur, arguments, fuel2);
                    match rargs {
                        Err(e1) => (st1, Err(e1)),
                        Ok(vals) => {
                            let call_scope = st1.env.len() as int;
                            let env1 = bind_params(
                                st1.env.push(child_scope(f.closure)),
                                call_scope,
                                f.params,
                                vals,
                            );
                            let (st2, sr) = eval_stmt_s(
                                StateV { env: env1, out: st1.out },
                                call_scope,
                                f.body,
                                fuel2,
                            );
                            match sr {
                                StepV::Ret(v) => (st2, Ok(v)),
                                StepV::Norm(Some(v)) => (st2, Ok(v)),
                                StepV::Norm(None) => (st2, Ok(TypeV::Null)),
                                StepV::Fail(e1) => (st2, Err(e1)),
                            }
                        },
                    }
                },
            },
        }
    }
}

/// Meaning of an argument list: values of the expressions, left to right, in
/// the caller's scope.
pub open spec fn eval_args_s(st: StateV, cur: int, es: Seq<ExprV>, fuel: nat) -> (StateV, Result<
    Seq<TypeV>,
    ErrV,
>)
    decreases fuel,
{
    if es.len() == 0 {
        (st, Ok(Seq::empty()))
    } else if fuel == 0 {
        (st, Err(ErrV::OutOfFuel))
    } else {
        let fuel2 = (fuel - 1) as nat;
        let (st1, r1) = eval_expr_s(st, cur, es[0], fuel2);
        match r1 {
            Err(e1) => (st1, Err(e1)),
            Ok(v) => {
                let (st2, r2) = eval_args_s(st1, cur, es.drop_first(), fuel2);
                match r2 {
                    Err(e2) => (st2, Err(e2)),
                    Ok(vs) => (st2, Ok(seq![v] + vs)),
                }
            },
        }
    }
}

/// Meaning of a statement.
pub open spec fn eval_stmt_s(st: StateV, cur: int, s: StmtV, fuel: nat) -> (StateV, StepV)
    decreases fuel,
{
    if fuel == 0 {
        (st, StepV::Fail(ErrV::OutOfFuel))
    } else {
        let fuel2 = (fuel - 1) as nat;
        match s {
            StmtV::VarDecl { name, value } => {
                let (st1, r1) = eval_expr_s(st, cur, value, fuel2);
                match r1 {
                    Err(e1) => (st1, StepV::Fail(e1)),
                    Ok(v) => if lookup_var(st1.env, cur, name) is Some {
                        (
                            StateV { env: update_var(st1.env, cur, name, v), out: st1.out },
                            StepV::Norm(None),
                        )
                    } else {
                        (
                            StateV { env: define_var(st1.env, cur, name, v), out: st1.out },
                            StepV::Norm(None),
                        )
                    },
                }
            },
            StmtV::ExprStmt(e) => {
                let (st1, r1) = eval_expr_s(st, cur, e, fuel2);
                match r1 {
                    Err(e1) => (st1, StepV::Fail(e1)),
                    Ok(v) => (st1, StepV::Norm(Some(v))),
                }
            },
            StmtV::PrntStmt(e) => {
                let (st1, r1) = eval_expr_s(st, cur, e, fuel2);
                match r1 {
                    Err(e1) => (st1, StepV::Fail(e1)),
                    Ok(v) => (
                        StateV { env: st1.env, out: st1.out.push(text_of(v)) },
                        StepV::Norm(None),
                    ),
                }
            },
            StmtV::Block(stmts) => {
                let block_scope = st.env.len() as int;
                let st1 = StateV { env: st.env.push(child_scope(cur)), out: st.out };
                eval_stmts_s(st1, block_scope, stmts, None, fuel2)
            },
            StmtV::IfStmt { condition, then_branch, else_branch } => {
                let (st1, r1) = eval_expr_s(st, cur, condition, fuel2);
                match r1 {
                    Err(e1) => (st1, StepV::Fail(e1)),
                    Ok(TypeV::Bool(true)) => {
                        let branch_scope = st1.env.len() as int;
                        let st2 = StateV { env: st1.env.push(child_scope(cur)), out: st1.out };
                        eval_stmt_s(st2, branch_scope, *then_branch, fuel2)
                    },
                    Ok(TypeV::Bool(false)) => match else_branch {
                        Some(eb) => {
                            let branch_scope = st1.env.len() as int;
                            let st2 = StateV { env: st1.env.push(child_scope(cur)), out: st1.out };
                            eval_stmt_s(st2, branch_scope, *eb, fuel2)
                        },
                        None => (st1, StepV::Norm(None)),
                    },
                    Ok(_) => (st1, StepV::Fail(ErrV::TypeMismatch)),
                }
            },
            StmtV::ForStmt { var_name, range, body } => {
                let (st1, r1) = eval_expr_s(st, cur, range, fuel2);
                match r1 {
                    Err(e1) => (st1, StepV::Fail(e1)),
                    Ok(TypeV::Range(n)) => eval_for_s(st1, cur, var_name, *body, 0, n, None, fuel2),
                    Ok(_) => (st1, StepV::Fail(ErrV::TypeMismatch)),
                }
            },
            StmtV::Function { name, params, body } => {
                let f = FunctionV { params: params, body: *body, closure: cur };
                (
                    StateV { env: define_fun(st.env, cur, name, f), out: st.out },
                    StepV::Norm(None),
                )
            },
            StmtV::Return(opt) => match opt {
                None => (st, StepV::Ret(TypeV::Null)),
                Some(e) => {
                    let (st1, r1) = eval_expr_s(st, cur, e, fuel2);
                    match r1 {
                        Err(e1) => (st1, StepV::Fail(e1)),
                        Ok(v) => (st1, StepV::Ret(v)),
                    }
                },
            },
        }
    }
}

/// Meaning of a statement sequence in one scope: statements run in order, a
/// return stops them, and the produced value is that of the last statement
/// that produced one.
pub open spec fn eval_stmts_s(
    st: StateV,
    cur: int,
    stmts: Seq<StmtV>,
    last: Option<TypeV>,
    fuel: nat,
) -> (StateV, StepV)
    decreases fuel,
{
    if stmts.len() == 0 {
        (st, StepV::Norm(last))
    } else if fuel == 0 {
        (st, StepV::Fail(ErrV::OutOfFuel))
    } else {
        let fuel2 = (fuel - 1) as nat;
        let (st1, r1) = eval_stmt_s(st, cur, stmts[0], fuel2);
        match r1 {
            StepV::Fail(e1) => (st1, StepV::Fail(e1)),
            StepV::Ret(v) => (st1, StepV::Ret(v)),
            StepV::Norm(vopt) => eval_stmts_s(
                st1,
                cur,
                stmts.drop_first(),
                if vopt is Some {
                    vopt
                } else {
                    last
                },
                fuel2,
            ),
        }
    }
}

/// Meaning of the iterations `i` up to `n` of a for-loop: each one binds the
/// loop variable in a fresh scope under `cur` and runs the body there.
pub open spec fn eval_for_s(
    st: StateV,
    cur: int,
    var_name: Seq<char>,
    body: StmtV,
    i: i64,
    n: i64,
    last: Option<TypeV>,
    fuel: nat,
) -> (StateV, StepV)
    decreases fuel,
{
    if i >= n {
        (st, StepV::Norm(last))
    } else if fuel == 0 {
        (st, StepV::Fail(ErrV::OutOfFuel))
    } else {
        let fuel2 = (fuel - 1) as nat;
        let iter_scope = st.env.len() as int;
        let env1 = define_var(
            st.env.push(child_scope(cur)),
            iter_scope,
            var_name,
            TypeV::Int(i),
        );
        let (st1, r1) = eval_stmt_s(StateV { env: env1, out: st.out }, iter_scope, body, fuel2);
        match r1 {
            StepV::Fail(e1) => (st1, StepV::Fail(e1)),
            StepV::Ret(v) => (st1, StepV::Ret(v)),
            StepV::Norm(vopt) => eval_for_s(
                st1,
                cur,
                var_name,
                body,
                (i + 1) as i64,
                n,
                if vopt is Some {
                    vopt
                } else {
                    last
                },
                fuel2,
            ),
        }
    }
}

/// The root state: one empty root scope and no output.
pub open spec fn root_state() -> StateV {
    StateV {
        env: seq![
            ScopeV { vars: Seq::<(Seq<char>, TypeV)>::empty(), funs: Seq::<
                (Seq<char>, FunctionV),
            >::empty(), parent: None },
        ],
        out: Seq::empty(),
    }
}

/// Meaning of a whole program: its statements run at top level in the root
/// scope; the run's value is that of the last top-level statement that
/// produced one, null if none did, or the value of a top-level return.
pub open spec fn eval_program_s(stmts: Seq<StmtV>, fuel: nat) -> (StateV, Result<TypeV, ErrV>) {
    let (st1, r1) = eval_stmts_s(root_state(), 0, stmts, None, fuel);
    match r1 {
        StepV::Ret(v) => (st1, Ok(v)),
        StepV::Norm(Some(v)) => (st1, Ok(v)),
        StepV::Norm(None) => (st1, Ok(TypeV::Null)),
        StepV::Fail(e1) => (st1, Err(e1)),
    }
}

/// Image of an optional produced value.
pub open spec fn opt_view(o: Option<Type>) -> Option<TypeV> {
    match o {
        Some(v) => Some(v@),
        None => None,
    }
}

/// Image of a vector of values.
pub open spec fn types_view(s: Seq<Type>) -> Seq<TypeV> {
    s.map_values(|t: Type| t@)
}

/// Applies the operator a binary node carries.
pub fn apply_binop(op: &Token, a: Type, b: Type) -> (r: Result<Type, RuntimeError>)
    ensures
        res_view(r) == apply_binop_s(op@, a@, b@),
{
    match op {
        Token::Plus => a.add(b),
        Token::Minus => a.subtract(b),
        Token::Star => a.multiply(b),
        Token::Slash => a.divide(b),
        Token::DblEqual => a.equal(b),
        Token::NotEqual => a.not_equal(b),
        Token::LessThan => a.less_than(b),
        Token::GreaterThan => a.greater_than(b),
        Token::LessThanEqual => a.less_than_equal(b),
        Token::GreaterThanEqual => a.greater_than_equal(b),
        _ => Err(RuntimeError::TypeMismatch),
    }
}

/// Evaluates an expression in the given scope; the state, output and result
/// are exactly those of the specification interpreter.
#[verifier::loop_isolation(false)]
pub fn eval_expr(
    env: &mut Environment,
    out: &mut Vec<String>,
    cur: usize,
    e: &Expr,
    fuel: u64,
) -> (r: Result<Type, RuntimeError>)
    requires
        wf_env(old(env)@),
        cur < old(env)@.len(),
    ensures
        wf_env(final(env)@),
        old(env)@.len() <= final(env)@.len(),
        ({
            let (st2, r2) = eval_expr_s(
                StateV { env: old(env)@, out: out_view(old(out)@) },
                cur as int,
                e@,
                fuel as nat,
            );
            final(env)@ == st2.env && out_view(final(out)@) == st2.out && res_view(r) == r2
        }),
    decreases fuel,
{
    let ghost st0 = StateV { env: old(env)@, out: out_view(old(out)@) };
    if fuel == 0 {
        return Err(RuntimeError::OutOfFuel);
    }
    let fuel2 = fuel - 1;
    match e {
        Expr::Number(n) => Ok(Type::Int(*n)),
        Expr::Float(b) => Ok(Type::Float(*b)),
        Expr::String(s) => Ok(Type::Str(s.clone())),
        Expr::Bool(b) => Ok(Type::Bool(*b)),
        Expr::Var(name) => env.get(cur, name),
        Expr::Binary { left, op, right } => {
            let a = match eval_expr(env, out, cur, left, fuel2) {
                Ok(v) => v,
                Err(e1) => {
                    return Err(e1);
                },
            };
            let b = match eval_expr(env, out, cur, right, fuel2) {
                Ok(v) => v,
                Err(e1) => {
                    return Err(e1);
                },
            };
            apply_binop(op, a, b)
        },
        Expr::Range(inner) => {
            let v = match eval_expr(env, out, cur, inner, fuel2) {
                Ok(v) => v,
                Err(e1) => {
                    return Err(e1);
                },
            };
            match v {
                Type::Int(n) => {
                    if n >= 0 {
                        Ok(Type::Range(n))
                    } else {
                        Err(RuntimeError::TypeMismatch)
                    }
                },
                _ => Err(RuntimeError::TypeMismatch),
            }
        },
        Expr::Call { callee, arguments } => {
            proof {
                crate::ast::lemma_exprs_view_len(arguments@);
            }
            let f = match env.get_function(cur, callee) {
                Some(f) => f,
                None => {
                    return Err(RuntimeError::UndefinedFunction(callee.clone()));
                },
            };
            if f.params.len() != arguments.len() {
                return Err(
                    RuntimeError::ArityMismatch {
                        expected: f.params.len(),
                        got: arguments.len(),
                    },
                );
            }
            let vals = match eval_args(env, out, cur, arguments, fuel2) {
                Ok(vs) => vs,
                Err(e1) => {
                    return Err(e1);
                },
            };
            let call_scope = env.new_scope(f.closure);
            let ghost env_scoped = env@;
            proof {
                assert(f@.params.skip(0) =~= f@.params);
                assert(types_view(vals@).skip(0) =~= types_view(vals@));
            }
            let mut j: usize = 0;
            while j < f.params.len()
                invariant
                    wf_env(env@),
                    j <= f.params@.len(),
                    f.params@.len() == vals@.len(),
                    call_scope < env@.len(),
                    env_scoped.len() <= env@.len(),
                    bind_params(
                        env_scoped,
                        call_scope as int,
                        f@.params,
                        types_view(vals@),
                    ) == bind_params(
                        env@,
                        call_scope as int,
                        f@.params.skip(j as int),
                        types_view(vals@).skip(j as int),
                    ),
                    env@.len() == env_scoped.len(),
                decreases f.params@.len() - j,
            {
                let ghost env_before = env@;
                env.define(call_scope, f.params[j].clone(), vals[j].clone());
                proof {
                    assert(f@.params.skip(j as int)[0] == f@.params[j as int]);
                    assert(types_view(vals@).skip(j as int)[0] == vals@[j as int]@);
                    assert(f@.params.skip(j as int).drop_first() =~= f@.params.skip(j + 1));
                    assert(types_view(vals@).skip(j as int).drop_first() =~= types_view(
                        vals@,
                    ).skip(j + 1));
                }
                j = j + 1;
            }
            proof {
                assert(f@.params.skip(f.params@.len() as int) =~= Seq::<Seq<char>>::empty());
                assert(types_view(vals@).skip(vals@.len() as int) =~= Seq::<TypeV>::empty());
            }
            let sr = match eval_stmt(env, out, call_scope, &f.body, fuel2) {
                Ok(sr) => sr,
                Err(e1) => {
                    return Err(e1);
                },
            };
            match sr {
                ExecResult::Return(v) => Ok(v),
                ExecResult::Value(Some(v)) => Ok(v),
                ExecResult::Value(None) => Ok(Type::Null),
            }
        },
    }
}

/// Evaluates a call's arguments, left to right, in the caller's scope.
#[verifier::loop_isolation(false)]
fn eval_args(
    env: &mut Environment,
    out: &mut Vec<String>,
    cur: usize,
    args: &Vec<Expr>,
    fuel: u64,
) -> (r: Result<Vec<Type>, RuntimeError>)
    requires
        wf_env(old(env)@),
        cur < old(env)@.len(),
    ensures
        wf_env(final(env)@),
        old(env)@.len() <= final(env)@.len(),
        ({
            let (st2, r2) = eval_args_s(
                StateV { env: old(env)@, out: out_view(old(out)@) },
                cur as int,
                crate::ast::exprs_view(args@),
                fuel as nat,
            );
            final(env)@ == st2.env && out_view(final(out)@) == st2.out && (match r {
                Ok(vs) => r2 == Ok::<Seq<TypeV>, ErrV>(types_view(vs@)) && vs@.len()
                    == args@.len(),
                Err(e1) => r2 == Err::<Seq<TypeV>, ErrV>(e1@),
            })
        }),
    decreases fuel,
{
    let ghost st0 = StateV { env: old(env)@, out: out_view(old(out)@) };
    let ghost full = crate::ast::exprs_view(args@);
    proof {
        crate::ast::lemma_exprs_view_len(args@);
    }
    let mut vals: Vec<Type> = Vec::new();
    let mut i: usize = 0;
    let mut fuel_now: u64 = fuel;
    proof {
        assert(full.skip(0) =~= full);
        let (sg, rg) = eval_args_s(st0, cur as int, full, fuel as nat);
        if rg is Ok {
            assert(types_view(vals@) + rg->Ok_0 =~= rg->Ok_0);
        }
    }
    while i < args.len()
        invariant
            wf_env(env@),
            cur < env@.len(),
            old(env)@.len() <= env@.len(),
            i <= args@.len(),
            vals@.len() == i,
            fuel_now <= fuel,
            full == crate::ast::exprs_view(args@),
            full.len() == args@.len(),
            forall|k: int| 0 <= k < args@.len() ==> full[k] == crate::ast::expr_view(
                #[trigger] args@[k],
            ),
            ({
                let (sf, rf) = eval_args_s(
                    StateV { env: env@, out: out_view(out@) },
                    cur as int,
                    full.skip(i as int),
                    fuel_now as nat,
                );
                let (sg, rg) = eval_args_s(st0, cur as int, full, fuel as nat);
                sg == sf && (match rf {
                    Ok(vs) => rg == Ok::<Seq<TypeV>, ErrV>(types_view(vals@) + vs),
                    Err(e1) => rg == Err::<Seq<TypeV>, ErrV>(e1),
                })
            }),
        decreases args@.len() - i,
    {
        let ghost pre = StateV { env: env@, out: out_view(out@) };
        let ghost pre_vals = vals@;
        proof {
            assert(full.skip(i as int).len() > 0);
            assert(full.skip(i as int)[0] == full[i as int]);
        }
        if fuel_now == 0 {
            proof {
                assert(eval_args_s(pre, cur as int, full.skip(i as int), 0) == (
                pre,
                Err::<Seq<TypeV>, ErrV>(ErrV::OutOfFuel),
                ));
            }
            return Err(RuntimeError::OutOfFuel);
        }
        let v = match eval_expr(env, out, cur, &args[i], fuel_now - 1) {
            Ok(v) => v,
            Err(e1) => {
                proof {
                    assert(eval_args_s(pre, cur as int, full.skip(i as int), fuel_now as nat).1
                        == Err::<Seq<TypeV>, ErrV>(e1@));
                }
                return Err(e1);
            },
        };
        vals.push(v);
        proof {
            assert(full.skip(i as int)[0] == full[i as int]);
            assert(full.skip(i as int).drop_first() =~= full.skip(i + 1));
            assert(types_view(pre_vals.push(v)) =~= types_view(pre_vals).push(v@));
            let (sf2, rf2) = eval_args_s(
                StateV { env: env@, out: out_view(out@) },
                cur as int,
                full.skip(i + 1),
                (fuel_now - 1) as nat,
            );
            if rf2 is Ok {
                assert(types_view(pre_vals) + (seq![v@] + rf2->Ok_0) =~= types_view(
                    pre_vals.push(v),
                ) + rf2->Ok_0);
            }
        }
        fuel_now = fuel_now - 1;
        i = i + 1;
    }
    proof {
        assert(full.skip(args@.len() as int) =~= Seq::<ExprV>::empty());
        assert(types_view(vals@) + Seq::<TypeV>::empty() =~= types_view(vals@));
    }
    Ok(vals)
}

/// Executes a statement in the given scope; the state, output and outcome
/// are exactly those of the specification interpreter.
pub fn eval_stmt(
    env: &mut Environment,
    out: &mut Vec<String>,
    cur: usize,
    s: &Stmt,
    fuel: u64,
) -> (r: Result<ExecResult, RuntimeError>)
    requires
        wf_env(old(env)@),
        cur < old(env)@.len(),
    ensures
        wf_env(final(env)@),
        old(env)@.len() <= final(env)@.len(),
        ({
            let (st2, r2) = eval_stmt_s(
                StateV { env: old(env)@, out: out_view(old(out)@) },
                cur as int,
                s@,
                fuel as nat,
            );
            final(env)@ == st2.env && out_view(final(out)@) == st2.out && step_view(r) == r2
        }),
    decreases fuel,
{
    let ghost st0 = StateV { env: old(env)@, out: out_view(old(out)@) };
    if fuel == 0 {
        return Err(RuntimeError::OutOfFuel);
    }
    let fuel2 = fuel - 1;
    match s {
        Stmt::VarDecl { name, value } => {
            let v = match eval_expr(env, out, cur, value, fuel2) {
                Ok(v) => v,
                Err(e1) => {
                    return Err(e1);
                },
            };
            if env.is_defined(cur, name) {
                match env.update(cur, name.clone(), v) {
                    Ok(_) => Ok(ExecResult::Value(None)),
                    Err(e1) => {
                        proof {
                            assert(false);
                        }
                        Err(e1)
                    },
                }
            } else {
                env.define(cur, name.clone(), v);
                Ok(ExecResult::Value(None))
            }
        },
        Stmt::ExprStmt(e) => {
            match eval_expr(env, out, cur, e, fuel2) {
                Ok(v) => Ok(ExecResult::Value(Some(v))),
                Err(e1) => Err(e1),
            }
        },
        Stmt::PrntStmt(e) => {
            let v = match eval_expr(env, out, cur, e, fuel2) {
                Ok(v) => v,
                Err(e1) => {
                    return Err(e1);
                },
            };
            let ghost out_pre = out@;
            let line = v.to_text();
            out.push(line);
            proof {
                assert(out_view(out@) =~= out_view(out_pre).push(text_of(v@)));
            }
            Ok(ExecResult::Value(None))
        },
        Stmt::Block(stmts) => {
            let block_scope = env.new_scope(cur);
            run_stmts(env, out, block_scope, stmts, fuel2)
        },
        Stmt::IfStmt { condition, then_branch, else_branch } => {
            let cv = match eval_expr(env, out, cur, condition, fuel2) {
                Ok(v) => v,
                Err(e1) => {
                    return Err(e1);
                },
            };
            match cv {
                Type::Bool(true) => {
                    let branch_scope = env.new_scope(cur);
                    eval_stmt(env, out, branch_scope, then_branch, fuel2)
                },
                Type::Bool(false) => {
                    match else_branch {
                        Some(eb) => {
                            let branch_scope = env.new_scope(cur);
                            eval_stmt(env, out, branch_scope, eb, fuel2)
                        },
                        None => Ok(ExecResult::Value(None)),
                    }
                },
                _ => Err(RuntimeError::TypeMismatch),
            }
        },
        Stmt::ForStmt { var_name, range, body } => {
            let rv = match eval_expr(env, out, cur, range, fuel2) {
                Ok(v) => v,
                Err(e1) => {
                    return Err(e1);
                },
            };
            match rv {
                Type::Range(n) => run_for(env, out, cur, var_name, body, n, fuel2),
                _ => Err(RuntimeError::TypeMismatch),
            }
        },
        Stmt::Function { name, params, body } => {
            let f = Function {
                params: crate::ast::clone_strings(params),
                body: crate::ast::clone_stmt(body),
                closure: cur,
            };
            env.define_function(cur, name.clone(), f);
            Ok(ExecResult::Value(None))
        },
        Stmt::Return(opt) => {
            match opt {
                None => Ok(ExecResult::Return(Type::Null)),
                Some(e) => {
                    match eval_expr(env, out, cur, e, fuel2) {
                        Ok(v) => Ok(ExecResult::Return(v)),
                        Err(e1) => Err(e1),
                    }
                },
            }
        },
    }
}

/// Runs the statements of one scope in order, tracking the last produced
/// value, as the specification's statement-sequence interpreter does.
#[verifier::loop_isolation(false)]
fn run_stmts(
    env: &mut Environment,
    out: &mut Vec<String>,
    cur: usize,
    stmts: &Vec<Stmt>,
    fuel: u64,
) -> (r: Result<ExecResult, RuntimeError>)
    requires
        wf_env(old(env)@),
        cur < old(env)@.len(),
    ensures
        wf_env(final(env)@),
        old(env)@.len() <= final(env)@.len(),
        ({
            let (st2, r2) = eval_stmts_s(
                StateV { env: old(env)@, out: out_view(old(out)@) },
                cur as int,
                stmts_view(stmts@),
                None,
                fuel as nat,
            );
            final(env)@ == st2.env && out_view(final(out)@) == st2.out && step_view(r) == r2
        }),
    decreases fuel,
{
    let ghost st0 = StateV { env: old(env)@, out: out_view(old(out)@) };
    let ghost full = stmts_view(stmts@);
    proof {
        crate::ast::lemma_stmts_view_len(stmts@);
    }
    let mut last: Option<Type> = None;
    let mut i: usize = 0;
    let mut fuel_now: u64 = fuel;
    proof {
        assert(full.skip(0) =~= full);
    }
    while i < stmts.len()
        invariant
            wf_env(env@),
            cur < env@.len(),
            old(env)@.len() <= env@.len(),
            i <= stmts@.len(),
            fuel_now <= fuel,
            full == stmts_view(stmts@),
            full.len() == stmts@.len(),
            forall|k: int| 0 <= k < stmts@.len() ==> full[k] == crate::ast::stmt_view(
                #[trigger] stmts@[k],
            ),
            eval_stmts_s(st0, cur as int, full, None, fuel as nat) == eval_stmts_s(
                StateV { env: env@, out: out_view(out@) },
                cur as int,
                full.skip(i as int),
                opt_view(last),
                fuel_now as nat,
            ),
        decreases stmts@.len() - i,
    {
        let ghost st_top = StateV { env: env@, out: out_view(out@) };
        let ghost last_top = opt_view(last);
        proof {
            assert(full.skip(i as int).len() > 0);
            assert(full.skip(i as int)[0] == full[i as int]);
        }
        if fuel_now == 0 {
            proof {
                assert(eval_stmts_s(st_top, cur as int, full.skip(i as int), last_top, 0) == (
                st_top,
                StepV::Fail(ErrV::OutOfFuel),
                ));
            }
            return Err(RuntimeError::OutOfFuel);
        }
        let sr = match eval_stmt(env, out, cur, &stmts[i], fuel_now - 1) {
            Ok(sr) => sr,
            Err(e1) => {
                proof {
                    let (s1, r1) = eval_stmt_s(
                        st_top,
                        cur as int,
                        full[i as int],
                        (fuel_now - 1) as nat,
                    );
                    assert(r1 == StepV::Fail(e1@));
                    assert(eval_stmts_s(
                        st_top,
                        cur as int,
                        full.skip(i as int),
                        last_top,
                        fuel_now as nat,
                    ) == (s1, StepV::Fail(e1@)));
                }
                return Err(e1);
            },
        };
        match sr {
            ExecResult::Return(v) => {
                proof {
                    let (s1, r1) = eval_stmt_s(
                        st_top,
                        cur as int,
                        full[i as int],
                        (fuel_now - 1) as nat,
                    );
                    assert(r1 == StepV::Ret(v@));
                    assert(eval_stmts_s(
                        st_top,
                        cur as int,
                        full.skip(i as int),
                        last_top,
                        fuel_now as nat,
                    ) == (s1, StepV::Ret(v@)));
                }
                return Ok(ExecResult::Return(v));
            },
            ExecResult::Value(vopt) => {
                match vopt {
                    Some(v) => {
                        last = Some(v);
                    },
                    None => {},
                }
            },
        }
        proof {
            assert(full.skip(i as int).drop_first() =~= full.skip(i + 1));
        }
        fuel_now = fuel_now - 1;
        i = i + 1;
    }
    proof {
        assert(full.skip(stmts@.len() as int) =~= Seq::<StmtV>::empty());
    }
    Ok(ExecResult::Value(last))
}

/// Runs the iterations of a for-loop over a range of `n`, each in a fresh
/// scope binding the loop variable.
#[verifier::loop_isolation(false)]
fn run_for(
    env: &mut Environment,
    out: &mut Vec<String>,
    cur: usize,
    var_name: &String,
    body: &Stmt,
    n: i64,
    fuel: u64,
) -> (r: Result<ExecResult, RuntimeError>)
    requires
        wf_env(old(env)@),
        cur < old(env)@.len(),
    ensures
        wf_env(final(env)@),
        old(env)@.len() <= final(env)@.len(),
        ({
            let (st2, r2) = eval_for_s(
                StateV { env: old(env)@, out: out_view(old(out)@) },
                cur as int,
                var_name@,
                body@,
                0,
                n,
                None,
                fuel as nat,
            );
            final(env)@ == st2.env && out_view(final(out)@) == st2.out && step_view(r) == r2
        }),
    decreases fuel,
{
    let ghost st0 = StateV { env: old(env)@, out: out_view(old(out)@) };
    let mut last: Option<Type> = None;
    let mut i: i64 = 0;
    let mut fuel_now: u64 = fuel;
    if n <= 0 {
        return Ok(ExecResult::Value(None));
    }
    while i < n
        invariant
            wf_env(env@),
            cur < env@.len(),
            old(env)@.len() <= env@.len(),
            0 <= i <= n,
            fuel_now <= fuel,
            eval_for_s(st0, cur as int, var_name@, body@, 0, n, None, fuel as nat) == eval_for_s(
                StateV { env: env@, out: out_view(out@) },
                cur as int,
                var_name@,
                body@,
                i,
                n,
                opt_view(last),
                fuel_now as nat,
            ),
        decreases n - i,
    {
        let ghost st_top = StateV { env: env@, out: out_view(out@) };
        let ghost last_top = opt_view(last);
        if fuel_now == 0 {
            proof {
                assert(eval_for_s(st_top, cur as int, var_name@, body@, i, n, last_top, 0) == (
                st_top,
                StepV::Fail(ErrV::OutOfFuel),
                ));
            }
            return Err(RuntimeError::OutOfFuel);
        }
        let iter_scope = env.new_scope(cur);
        env.define(iter_scope, var_name.clone(), Type::Int(i));
        proof {
            assert(env@ == define_var(
                st_top.env.push(child_scope(cur as int)),
                st_top.env.len() as int,
                var_name@,
                TypeV::Int(i),
            ));
        }
        let sr = match eval_stmt(env, out, iter_scope, body, fuel_now - 1) {
            Ok(sr) => sr,
            Err(e1) => {
                proof {
                    assert(eval_for_s(
                        st_top,
                        cur as int,
                        var_name@,
                        body@,
                        i,
                        n,
                        last_top,
                        fuel_now as nat,
                    ).1 == StepV::Fail(e1@));
                }
                return Err(e1);
            },
        };
        match sr {
            ExecResult::Return(v) => {
                proof {
                    assert(eval_for_s(
                        st_top,
                        cur as int,
                        var_name@,
                        body@,
                        i,
                        n,
                        last_top,
                        fuel_now as nat,
                    ).1 == StepV::Ret(v@));
                }
                return Ok(ExecResult::Return(v));
            },
            ExecResult::Value(vopt) => {
                match vopt {
                    Some(v) => {
                        last = Some(v);
                    },
                    None => {},
                }
            },
        }
        fuel_now = fuel_now - 1;
        i = i + 1;
    }
    Ok(ExecResult::Value(last))
}

/// Runs a whole program from a fresh root scope with the given fuel; hands
/// back the lines it printed and the run's final value or its first error.
pub fn eval_program(stmts: &Vec<Stmt>, fuel: u64) -> (r: (Vec<String>, Result<Type, RuntimeError>))
    ensures
        ({
            let (st2, r2) = eval_program_s(stmts_view(stmts@), fuel as nat);
            out_view(r.0@) == st2.out && res_view(r.1) == r2
        }),
{
    let mut env = Environment::new();
    let mut out: Vec<String> = Vec::new();
    proof {
        assert(env@ == root_state().env);
        assert(out_view(out@) =~= root_state().out);
        assert(StateV { env: env@, out: out_view(out@) } =~= root_state());
    }
    let res = run_stmts(&mut env, &mut out, 0, stmts, fuel);
    match res {
        Ok(ExecResult::Return(v)) => (out, Ok(v)),
        Ok(ExecResult::Value(Some(v))) => (out, Ok(v)),
        Ok(ExecResult::Value(None)) => (out, Ok(Type::Null)),
        Err(e1) => (out, Err(e1)),
    }
}

} // verus!
