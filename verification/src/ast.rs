//! The abstract syntax tree the parser builds and the evaluator walks, with
//! the operator-precedence tiers of the expression grammar.

use vstd::prelude::*;
use crate::token::{Token, TokenV};

verus! {

/// An expression. Binary nodes carry the operator token itself; a range
/// construct is its own node around the bound expression.
pub enum Expr {
    Number(i64),
    Float(u64),
    String(String),
    Bool(bool),
    Var(String),
    Binary { left: Box<Expr>, op: Token, right: Box<Expr> },
    Call { callee: String, arguments: Vec<Expr> },
    Range(Box<Expr>),
}

/// A statement.
pub enum Stmt {
    VarDecl { name: String, value: Expr },
    ExprStmt(Expr),
    PrntStmt(Expr),
    Block(Vec<Stmt>),
    IfStmt { condition: Expr, then_branch: Box<Stmt>, else_branch: Option<Box<Stmt>> },
    ForStmt { var_name: String, range: Expr, body: Box<Stmt> },
    Function { name: String, params: Vec<String>, body: Box<Stmt> },
    Return(Option<Expr>),
}

/// Mathematical image of an expression.
pub enum ExprV {
    Number(i64),
    Float(u64),
    String(Seq<char>),
    Bool(bool),
    Var(Seq<char>),
    Binary { left: Box<ExprV>, op: TokenV, right: Box<ExprV> },
    Call { callee: Seq<char>, arguments: Seq<ExprV> },
    Range(Box<ExprV>),
}

/// Mathematical image of a statement.
pub enum StmtV {
    VarDecl { name: Seq<char>, value: ExprV },
    ExprStmt(ExprV),
    PrntStmt(ExprV),
    Block(Seq<StmtV>),
    IfStmt { condition: ExprV, then_branch: Box<StmtV>, else_branch: Option<Box<StmtV>> },
    ForStmt { var_name: Seq<char>, range: ExprV, body: Box<StmtV> },
    Function { name: Seq<char>, params: Seq<Seq<char>>, body: Box<StmtV> },
    Return(Option<ExprV>),
}

pub open spec fn expr_view(e: Expr) -> ExprV
    decreases e,
{
    match e {
        Expr::Number(n) => ExprV::Number(n),
        Expr::Float(b) => ExprV::Float(b),
        Expr::String(s) => ExprV::String(s@),
        Expr::Bool(b) => ExprV::Bool(b),
        Expr::Var(n) => ExprV::Var(n@),
        Expr::Binary { left, op, right } => (ExprV::Binary {
            left: Box::new(expr_view(*left)),
            op: op@,
            right: Box::new(expr_view(*right)),
        }),
        Expr::Call { callee, arguments } => (ExprV::Call {
            callee: callee@,
            arguments: exprs_view(arguments@),
        }),
        Expr::Range(inner) => ExprV::Range(Box::new(expr_view(*inner))),
    }
}

pub open spec fn exprs_view(s: Seq<Expr>) -> Seq<ExprV>
    decreases s,
{
    if s.len() == 0 {
        Seq::empty()
    } else {
        exprs_view(s.drop_last()).push(expr_view(s.last()))
    }
}

pub open spec fn stmt_view(s: Stmt) -> StmtV
    decreases s,
{
    match s {
        Stmt::VarDecl { name, value } => (StmtV::VarDecl { name: name@, value: expr_view(value) }),
        Stmt::ExprStmt(e) => StmtV::ExprStmt(expr_view(e)),
        Stmt::PrntStmt(e) => StmtV::PrntStmt(expr_view(e)),
        Stmt::Block(stmts) => StmtV::Block(stmts_view(stmts@)),
        Stmt::IfStmt { condition, then_branch, else_branch } => (StmtV::IfStmt {
            condition: expr_view(condition),
            then_branch: Box::new(stmt_view(*then_branch)),
            else_branch: match else_branch {
                Some(b) => Some(Box::new(stmt_view(*b))),
                None => None,
            },
        }),
        Stmt::ForStmt { var_name, range, body } => (StmtV::ForStmt {
            var_name: var_name@,
            range: expr_view(range),
            body: Box::new(stmt_view(*body)),
        }),
        Stmt::Function { name, params, body } => (StmtV::Function {
            name: name@,
            params: params@.map_values(|p: String| p@),
            body: Box::new(stmt_view(*body)),
        }),
        Stmt::Return(e) => StmtV::Return(
            match e {
                Some(e0) => Some(expr_view(e0)),
                None => None,
            },
        ),
    }
}

pub open spec fn stmts_view(s: Seq<Stmt>) -> Seq<StmtV>
    decreases s,
{
    if s.len() == 0 {
        Seq::empty()
    } else {
        stmts_view(s.drop_last()).push(stmt_view(s.last()))
    }
}

impl View for Expr {
    type V = ExprV;

    open spec fn view(&self) -> ExprV {
        expr_view(*self)
    }
}

impl View for Stmt {
    type V = StmtV;

    open spec fn view(&self) -> StmtV {
        stmt_view(*self)
    }
}

/// The sequence of images of a vector of expressions is the image of each
/// element in order.
pub proof fn lemma_exprs_view_len(s: Seq<Expr>)
    ensures
        exprs_view(s).len() == s.len(),
        forall|i: int| 0 <= i < s.len() ==> exprs_view(s)[i] == expr_view(#[trigger] s[i]),
    decreases s,
{
    if s.len() > 0 {
        lemma_exprs_view_len(s.drop_last());
        assert forall|i: int| 0 <= i < s.len() implies exprs_view(s)[i] == expr_view(s[i]) by {
            if i < s.len() - 1 {
                assert(s.drop_last()[i] == s[i]);
                assert(exprs_view(s)[i] == exprs_view(s.drop_last())[i]);
            } else {
                assert(s.last() == s[i]);
            }
        }
    }
}

/// Two expression vectors with the same images elementwise have the same
/// image as sequences.
pub proof fn lemma_exprs_view_congruence(a: Seq<Expr>, b: Seq<Expr>)
    requires
        a.len() == b.len(),
        forall|i: int| 0 <= i < a.len() ==> expr_view(#[trigger] a[i]) == expr_view(b[i]),
    ensures
        exprs_view(a) == exprs_view(b),
{
    lemma_exprs_view_len(a);
    lemma_exprs_view_len(b);
    assert forall|i: int| 0 <= i < a.len() implies exprs_view(a)[i] == exprs_view(b)[i] by {
        assert(exprs_view(a)[i] == expr_view(a[i]));
        assert(exprs_view(b)[i] == expr_view(b[i]));
    }
    assert(exprs_view(a) =~= exprs_view(b));
}

/// The sequence of images of a vector of statements is the image of each
/// element in order.
pub proof fn lemma_stmts_view_len(s: Seq<Stmt>)
    ensures
        stmts_view(s).len() == s.len(),
        forall|i: int| 0 <= i < s.len() ==> stmts_view(s)[i] == stmt_view(#[trigger] s[i]),
    decreases s,
{
    if s.len() > 0 {
        lemma_stmts_view_len(s.drop_last());
        assert forall|i: int| 0 <= i < s.len() implies stmts_view(s)[i] == stmt_view(s[i]) by {
            if i < s.len() - 1 {
                assert(s.drop_last()[i] == s[i]);
                assert(stmts_view(s)[i] == stmts_view(s.drop_last())[i]);
            } else {
                assert(s.last() == s[i]);
            }
        }
    }
}

/// Two statement vectors with the same images elementwise have the same
/// image as sequences.
pub proof fn lemma_stmts_view_congruence(a: Seq<Stmt>, b: Seq<Stmt>)
    requires
        a.len() == b.len(),
        forall|i: int| 0 <= i < a.len() ==> stmt_view(#[trigger] a[i]) == stmt_view(b[i]),
    ensures
        stmts_view(a) == stmts_view(b),
{
    lemma_stmts_view_len(a);
    lemma_stmts_view_len(b);
    assert forall|i: int| 0 <= i < a.len() implies stmts_view(a)[i] == stmts_view(b)[i] by {
        assert(stmts_view(a)[i] == stmt_view(a[i]));
        assert(stmts_view(b)[i] == stmt_view(b[i]));
    }
    assert(stmts_view(a) =~= stmts_view(b));
}

pub(crate) fn clone_strings(v: &Vec<String>) -> (r: Vec<String>)
    ensures
        r@ == v@,
{
    let mut r: Vec<String> = Vec::new();
    let mut i: usize = 0;
    while i < v.len()
        invariant
            i <= v.len(),
            r@ == v@.subrange(0, i as int),
        decreases v.len() - i,
    {
        r.push(v[i].clone());
        assert(v@.subrange(0, i as int).push(v@[i as int]) =~= v@.subrange(0, i + 1));
        i = i + 1;
    }
    assert(v@.subrange(0, v@.len() as int) =~= v@);
    r
}

pub fn clone_expr(e: &Expr) -> (r: Expr)
    ensures
        r@ == e@,
    decreases *e,
{
    match e {
        Expr::Number(n) => Expr::Number(*n),
        Expr::Float(b) => Expr::Float(*b),
        Expr::String(s) => Expr::String(s.clone()),
        Expr::Bool(b) => Expr::Bool(*b),
        Expr::Var(n) => Expr::Var(n.clone()),
        Expr::Binary { left, op, right } => (Expr::Binary {
            left: Box::new(clone_expr(left)),
            op: op.clone(),
            right: Box::new(clone_expr(right)),
        }),
        Expr::Call { callee, arguments } => {
            let args2 = clone_exprs(arguments);
            proof {
                lemma_exprs_view_congruence(args2@, arguments@);
            }
            Expr::Call { callee: callee.clone(), arguments: args2 }
        },
        Expr::Range(inner) => Expr::Range(Box::new(clone_expr(inner))),
    }
}

pub fn clone_exprs(v: &Vec<Expr>) -> (r: Vec<Expr>)
    ensures
        r@.len() == v@.len(),
        forall|i: int| 0 <= i < v@.len() ==> expr_view(#[trigger] r@[i]) == expr_view(v@[i]),
    decreases v@,
{
    let mut r: Vec<Expr> = Vec::new();
    let mut i: usize = 0;
    while i < v.len()
        invariant
            i <= v.len(),
            r@.len() == i,
            forall|j: int| 0 <= j < i ==> expr_view(#[trigger] r@[j]) == expr_view(v@[j]),
        decreases v.len() - i,
    {
        r.push(clone_expr(&v[i]));
        i = i + 1;
    }
    r
}

pub fn clone_stmt(s: &Stmt) -> (r: Stmt)
    ensures
        r@ == s@,
    decreases *s,
{
    match s {
        Stmt::VarDecl { name, value } => (Stmt::VarDecl {
            name: name.clone(),
            value: clone_expr(value),
        }),
        Stmt::ExprStmt(e) => Stmt::ExprStmt(clone_expr(e)),
        Stmt::PrntStmt(e) => Stmt::PrntStmt(clone_expr(e)),
        Stmt::Block(stmts) => {
            let stmts2 = clone_stmts(stmts);
            proof {
                lemma_stmts_view_congruence(stmts2@, stmts@);
            }
            Stmt::Block(stmts2)
        },
        Stmt::IfStmt { condition, then_branch, else_branch } => (Stmt::IfStmt {
            condition: clone_expr(condition),
            then_branch: Box::new(clone_stmt(then_branch)),
            else_branch: match else_branch {
                Some(b) => Some(Box::new(clone_stmt(b))),
                None => None,
            },
        }),
        Stmt::ForStmt { var_name, range, body } => (Stmt::ForStmt {
            var_name: var_name.clone(),
            range: clone_expr(range),
            body: Box::new(clone_stmt(body)),
        }),
        Stmt::Function { name, params, body } => (Stmt::Function {
            name: name.clone(),
            params: clone_strings(params),
            body: Box::new(clone_stmt(body)),
        }),
        Stmt::Return(e) => Stmt::Return(
            match e {
                Some(e0) => Some(clone_expr(e0)),
                None => None,
            },
        ),
    }
}

pub fn clone_stmts(v: &Vec<Stmt>) -> (r: Vec<Stmt>)
    ensures
        r@.len() == v@.len(),
        forall|i: int| 0 <= i < v@.len() ==> stmt_view(#[trigger] r@[i]) == stmt_view(v@[i]),
    decreases v@,
{
    let mut r: Vec<Stmt> = Vec::new();
    let mut i: usize = 0;
    while i < v.len()
        invariant
            i <= v.len(),
            r@.len() == i,
            forall|j: int| 0 <= j < i ==> stmt_view(#[trigger] r@[j]) == stmt_view(v@[j]),
        decreases v.len() - i,
    {
        r.push(clone_stmt(&v[i]));
        i = i + 1;
    }
    r
}

impl Clone for Expr {
    fn clone(&self) -> (r: Expr)
        ensures
            r@ == self@,
    {
        clone_expr(self)
    }
}

impl Clone for Stmt {
    fn clone(&self) -> (r: Stmt)
        ensures
            r@ == self@,
    {
        clone_stmt(self)
    }
}

/// The operator-precedence tiers of the expression grammar.
#[derive(Clone, Copy, PartialEq, Eq, Structural)]
pub enum Precedence {
    Lowest,
    Sum,
    Product,
    DblEqual,
}

/// Binding rank of a tier, low to high: no operator, then comparison and
/// equality, then sum, then product — sum and product bind tighter than
/// comparisons.
pub open spec fn prec_rank(p: Precedence) -> int {
    match p {
        Precedence::Lowest => 0,
        Precedence::DblEqual => 1,
        Precedence::Sum => 2,
        Precedence::Product => 3,
    }
}

/// Exec mirror of `prec_rank`.
pub fn prec_rank_of(p: Precedence) -> (r: u8)
    ensures
        r as int == prec_rank(p),
{
    match p {
        Precedence::Lowest => 0,
        Precedence::DblEqual => 1,
        Precedence::Sum => 2,
        Precedence::Product => 3,
    }
}

/// Tier of the operator a token denotes; any other token sits at the bottom.
pub open spec fn prec_of(t: TokenV) -> Precedence {
    match t {
        TokenV::Plus | TokenV::Minus => Precedence::Sum,
        TokenV::Star | TokenV::Slash => Precedence::Product,
        TokenV::DblEqual | TokenV::NotEqual => Precedence::DblEqual,
        TokenV::LessThan | TokenV::GreaterThan | TokenV::LessThanEqual
            | TokenV::GreaterThanEqual => Precedence::DblEqual,
        _ => Precedence::Lowest,
    }
}

/// The tier of the operator a token denotes.
pub fn precedence(tok: &Token) -> (r: Precedence)
    ensures
        r == prec_of(tok@),
{
    match tok {
        Token::Plus | Token::Minus => Precedence::Sum,
        Token::Star | Token::Slash => Precedence::Product,
        Token::DblEqual | Token::NotEqual => Precedence::DblEqual,
        Token::LessThan | Token::GreaterThan | Token::LessThanEqual
            | Token::GreaterThanEqual => Precedence::DblEqual,
        _ => Precedence::Lowest,
    }
}

} // verus!
