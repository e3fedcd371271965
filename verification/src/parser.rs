//! The parser: recursive descent for statements, precedence climbing for
//! expressions. The tree each call builds, and where it leaves the cursor,
//! are fixed by the fueled parsing functions over the token sequence; a
//! syntax error aborts the whole parse with no recovery. Fuel bounds the
//! descent; the public entry points grant enough for any input that does not
//! nest deeper than it has tokens.

use vstd::prelude::*;
use crate::ast::{Expr, ExprV, Stmt, StmtV, Precedence, precedence, prec_of, prec_rank,
    prec_rank_of};
use crate::lexer::{Lexer, next_token_s};
use crate::token::{Token, TokenV};

verus! {

/// An unexpected or missing token; the parse stops here, with no partial
/// tree and no recovery. How the failure is presented is the caller's
/// business.
pub struct SyntaxError;

/// The token at `pos`, with the end of input reading as its marker.
pub open spec fn cur_tok(toks: Seq<TokenV>, pos: int) -> TokenV {
    if 0 <= pos < toks.len() {
        toks[pos]
    } else {
        TokenV::EOF
    }
}

/// All tokens of the source from `pos` on, ending with the end-of-input
/// marker.
pub open spec fn lex_all(src: Seq<char>, pos: int) -> Seq<TokenV>
    decreases src.len() - pos,
        when 0 <= pos <= src.len()
{
    let (t, p2) = next_token_s(src, pos);
    if t is EOF {
        seq![TokenV::EOF]
    } else if pos < p2 <= src.len() {
        seq![t] + lex_all(src, p2)
    } else {
        seq![TokenV::EOF]
    }
}

/// Outcome of parsing one statement: the tree and the position after it, or
/// the failure position.
pub open spec fn parse_stmt_s(toks: Seq<TokenV>, pos: int, fuel: nat) -> (Result<StmtV, ()>, int)
    decreases fuel,
{
    if fuel == 0 {
        (Err(()), pos)
    } else {
        let fuel2 = (fuel - 1) as nat;
        match cur_tok(toks, pos) {
            TokenV::Var => match cur_tok(toks, pos + 1) {
                TokenV::Identifier(name) => if cur_tok(toks, pos + 2) is Equal {
                    let (r, p) = parse_expression_s(toks, pos + 3, Precedence::Lowest, fuel2);
                    match r {
                        Err(e) => (Err(e), p),
                        Ok(value) => if cur_tok(toks, p) is Semicolon {
                            (Ok(StmtV::VarDecl { name: name, value: value }), p + 1)
                        } else {
                            (Err(()), p)
                        },
                    }
                } else {
                    (Err(()), pos + 2)
                },
                _ => (Err(()), pos + 1),
            },
            TokenV::Print => {
                let (r, p) = parse_expression_s(toks, pos + 1, Precedence::Lowest, fuel2);
                match r {
                    Err(e) => (Err(e), p),
                    Ok(e) => if cur_tok(toks, p) is Semicolon {
                        (Ok(StmtV::PrntStmt(e)), p + 1)
                    } else {
                        (Err(()), p)
                    },
                }
            },
            TokenV::Fn => match cur_tok(toks, pos + 1) {
                TokenV::Identifier(name) => if cur_tok(toks, pos + 2) is LParen {
                    let (rp, p) = parse_params_s(toks, pos + 3, fuel2);
                    match rp {
                        Err(e) => (Err(e), p),
                        Ok(params) => if cur_tok(toks, p) is RParen {
                            if cur_tok(toks, p + 1) is LBrace {
                                let (rb, p2) = parse_block_s(toks, p + 2, fuel2);
                                match rb {
                                    Err(e) => (Err(e), p2),
                                    Ok(body) => (
                                        Ok(
                                            StmtV::Function {
                                                name: name,
                                                params: params,
                                                body: Box::new(body),
                                            },
                                        ),
                                        p2,
                                    ),
                                }
                            } else {
                                (Err(()), p + 1)
                            }
                        } else {
                            (Err(()), p)
                        },
                    }
                } else {
                    (Err(()), pos + 2)
                },
                _ => (Err(()), pos + 1),
            },
            TokenV::Return => if cur_tok(toks, pos + 1) is Semicolon {
                (Ok(StmtV::Return(None)), pos + 2)
            } else {
                let (r, p) = parse_expression_s(toks, pos + 1, Precedence::Lowest, fuel2);
                match r {
                    Err(e) => (Err(e), p),
                    Ok(e) => if cur_tok(toks, p) is Semicolon {
                        (Ok(StmtV::Return(Some(e))), p + 1)
                    } else {
                        (Err(()), p)
                    },
                }
            },
            TokenV::Identifier(name) => if cur_tok(toks, pos + 1) is Equal {
                let (r, p) = parse_expression_s(toks, pos + 2, Precedence::Lowest, fuel2);
                match r {
                    Err(e) => (Err(e), p),
                    Ok(value) => if cur_tok(toks, p) is Semicolon {
                        (Ok(StmtV::VarDecl { name: name, value: value }), p + 1)
                    } else {
                        (Err(()), p)
                    },
                }
            } else {
                let (r, p) = parse_expression_s(toks, pos, Precedence::Lowest, fuel2);
                match r {
                    Err(e) => (Err(e), p),
                    Ok(e) => if cur_tok(toks, p) is Semicolon {
                        (Ok(StmtV::ExprStmt(e)), p + 1)
                    } else {
                        (Err(()), p)
                    },
                }
            },
            TokenV::For => match cur_tok(toks, pos + 1) {
                TokenV::Identifier(var_name) => if cur_tok(toks, pos + 2) is In {
                    let (r, p) = parse_expression_s(toks, pos + 3, Precedence::Lowest, fuel2);
                    match r {
                        Err(e) => (Err(e), p),
                        Ok(range) => if cur_tok(toks, p) is LBrace {
                            let (rb, p2) = parse_block_s(toks, p + 1, fuel2);
                            match rb {
                                Err(e) => (Err(e), p2),
                                Ok(body) => (
                                    Ok(
                                        StmtV::ForStmt {
                                            var_name: var_name,
                                            range: range,
                                            body: Box::new(body),
                                        },
                                    ),
                                    p2,
                                ),
                            }
                        } else {
                            (Err(()), p)
                        },
                    }
                } else {
                    (Err(()), pos + 2)
                },
                _ => (Err(()), pos + 1),
            },
            TokenV::If | TokenV::Elif => {
                let (r, p) = parse_expression_s(toks, pos + 1, Precedence::Lowest, fuel2);
                match r {
                    Err(e) => (Err(e), p),
                    Ok(condition) => if cur_tok(toks, p) is LBrace {
                        let (rb, p2) = parse_block_s(toks, p + 1, fuel2);
                        match rb {
                            Err(e) => (Err(e), p2),
                            Ok(then_block) => if cur_tok(toks, p2) is Else {
                                if cur_tok(toks, p2 + 1) is LBrace {
                                    let (re, p3) = parse_block_s(toks, p2 + 2, fuel2);
                                    match re {
                                        Err(e) => (Err(e), p3),
                                        Ok(else_block) => (
                                            Ok(
                                                StmtV::IfStmt {
                                                    condition: condition,
                                                    then_branch: Box::new(then_block),
                                                    else_branch: Some(Box::new(else_block)),
                                                },
                                            ),
                                            p3,
                                        ),
                                    }
                                } else {
                                    (Err(()), p2 + 1)
                                }
                            } else if cur_tok(toks, p2) is Elif {
                                let (re, p3) = parse_stmt_s(toks, p2, fuel2);
                                match re {
                                    Err(e) => (Err(e), p3),
                                    Ok(elif_stmt) => (
                                        Ok(
                                            StmtV::IfStmt {
                                                condition: condition,
                                                then_branch: Box::new(then_block),
                                                else_branch: Some(Box::new(elif_stmt)),
                                            },
                                        ),
                                        p3,
                                    ),
                                }
                            } else {
                                (
                                    Ok(
                                        StmtV::IfStmt {
                                            condition: condition,
                                            then_branch: Box::new(then_block),
                                            else_branch: None,
                                        },
                                    ),
                                    p2,
                                )
                            },
                        }
                    } else {
                        (Err(()), p)
                    },
                }
            },
            _ => {
                let (r, p) = parse_expression_s(toks, pos, Precedence::Lowest, fuel2);
                match r {
                    Err(e) => (Err(e), p),
                    Ok(e) => if cur_tok(toks, p) is Semicolon {
                        (Ok(StmtV::ExprStmt(e)), p + 1)
                    } else {
                        (Err(()), p)
                    },
                }
            },
        }
    }
}

/// Outcome of parsing a function declaration's parameter names, between the
/// parentheses.
pub open spec fn parse_params_s(toks: Seq<TokenV>, pos: int, fuel: nat) -> (Result<
    Seq<Seq<char>>,
    (),
>, int)
    decreases fuel,
{
    if cur_tok(toks, pos) is RParen {
        (Ok(Seq::empty()), pos)
    } else if fuel == 0 {
        (Err(()), pos)
    } else {
        match cur_tok(toks, pos) {
            TokenV::Identifier(name) => if cur_tok(toks, pos + 1) is Comma {
                let (r, p) = parse_params_rest_s(toks, pos + 2, (fuel - 1) as nat);
                match r {
                    Err(e) => (Err(e), p),
                    Ok(rest) => (Ok(seq![name] + rest), p),
                }
            } else {
                (Ok(seq![name]), pos + 1)
            },
            _ => (Err(()), pos),
        }
    }
}

/// Parameter names after a comma: here even a closing parenthesis is an
/// error, since a name is owed.
pub open spec fn parse_params_rest_s(toks: Seq<TokenV>, pos: int, fuel: nat) -> (Result<
    Seq<Seq<char>>,
    (),
>, int)
    decreases fuel,
{
    if fuel == 0 {
        (Err(()), pos)
    } else {
        match cur_tok(toks, pos) {
            TokenV::Identifier(name) => if cur_tok(toks, pos + 1) is Comma {
                let (r, p) = parse_params_rest_s(toks, pos + 2, (fuel - 1) as nat);
                match r {
                    Err(e) => (Err(e), p),
                    Ok(rest) => (Ok(seq![name] + rest), p),
                }
            } else {
                (Ok(seq![name]), pos + 1)
            },
            _ => (Err(()), pos),
        }
    }
}

/// Outcome of parsing the statements of a block and its closing brace.
pub open spec fn parse_block_s(toks: Seq<TokenV>, pos: int, fuel: nat) -> (Result<StmtV, ()>, int)
    decreases fuel,
{
    if fuel == 0 {
        (Err(()), pos)
    } else {
        let (r, p) = parse_block_items_s(toks, pos, (fuel - 1) as nat);
        match r {
            Err(e) => (Err(e), p),
            Ok(stmts) => if cur_tok(toks, p) is RBrace {
                (Ok(StmtV::Block(stmts)), p + 1)
            } else {
                (Err(()), p)
            },
        }
    }
}

/// The statements of a block, up to the closing brace or the end of input.
pub open spec fn parse_block_items_s(toks: Seq<TokenV>, pos: int, fuel: nat) -> (Result<
    Seq<StmtV>,
    (),
>, int)
    decreases fuel,
{
    if cur_tok(toks, pos) is RBrace || cur_tok(toks, pos) is EOF {
        (Ok(Seq::empty()), pos)
    } else if fuel == 0 {
        (Err(()), pos)
    } else {
        let fuel2 = (fuel - 1) as nat;
        let (r, p) = parse_stmt_s(toks, pos, fuel2);
        match r {
            Err(e) => (Err(e), p),
            Ok(st) => {
                let (r2, p2) = parse_block_items_s(toks, p, fuel2);
                match r2 {
                    Err(e) => (Err(e), p2),
                    Ok(rest) => (Ok(seq![st] + rest), p2),
                }
            },
        }
    }
}

/// Outcome of parsing one expression at the given binding tier: a primary,
/// then every operator that binds tighter than the tier.
pub open spec fn parse_expression_s(toks: Seq<TokenV>, pos: int, prec: Precedence, fuel: nat) -> (
    Result<ExprV, ()>,
    int,
)
    decreases fuel,
{
    if fuel == 0 {
        (Err(()), pos)
    } else {
        let fuel2 = (fuel - 1) as nat;
        let (r, p) = parse_primary_s(toks, pos, fuel2);
        match r {
            Err(e) => (Err(e), p),
            Ok(left) => parse_binops_s(toks, p, left, prec, fuel2),
        }
    }
}

/// A primary expression: a literal, a variable or call, a range construct,
/// or a parenthesized or braced subexpression.
pub open spec fn parse_primary_s(toks: Seq<TokenV>, pos: int, fuel: nat) -> (Result<ExprV, ()>, int)
    decreases fuel,
{
    if fuel == 0 {
        (Err(()), pos)
    } else {
        let fuel2 = (fuel - 1) as nat;
        match cur_tok(toks, pos) {
            TokenV::Number(n) => (Ok(ExprV::Number(n)), pos + 1),
            TokenV::Float(b) => (Ok(ExprV::Float(b)), pos + 1),
            TokenV::String(s) => (Ok(ExprV::String(s)), pos + 1),
            TokenV::Bool(b) => (Ok(ExprV::Bool(b)), pos + 1),
            TokenV::Range => if cur_tok(toks, pos + 1) is LParen {
                let (r, p) = parse_expression_s(toks, pos + 2, Precedence::Lowest, fuel2);
                match r {
                    Err(e) => (Err(e), p),
                    Ok(arg) => if cur_tok(toks, p) is RParen {
                        (Ok(ExprV::Range(Box::new(arg))), p + 1)
                    } else {
                        (Err(()), p)
                    },
                }
            } else {
                (Err(()), pos + 1)
            },
            TokenV::LParen => {
                let (r, p) = parse_expression_s(toks, pos + 1, Precedence::Lowest, fuel2);
                match r {
                    Err(e) => (Err(e), p),
                    Ok(e) => if cur_tok(toks, p) is RParen {
                        (Ok(e), p + 1)
                    } else {
                        (Err(()), p)
                    },
                }
            },
            TokenV::LBrace => {
                let (r, p) = parse_expression_s(toks, pos + 1, Precedence::Lowest, fuel2);
                match r {
                    Err(e) => (Err(e), p),
                    Ok(e) => if cur_tok(toks, p) is RBrace {
                        (Ok(e), p + 1)
                    } else {
                        (Err(()), p)
                    },
                }
            },
            TokenV::Identifier(name) => if cur_tok(toks, pos + 1) is LParen {
                let (r, p) = parse_call_args_s(toks, pos + 1, fuel2);
                match r {
                    Err(e) => (Err(e), p),
                    Ok(args) => (Ok(ExprV::Call { callee: name, arguments: args }), p),
                }
            } else {
                (Ok(ExprV::Var(name)), pos + 1)
            },
            _ => (Err(()), pos),
        }
    }
}

/// A call's argument list, parentheses included.
pub open spec fn parse_call_args_s(toks: Seq<TokenV>, pos: int, fuel: nat) -> (Result<
    Seq<ExprV>,
    (),
>, int)
    decreases fuel,
{
    if fuel == 0 {
        (Err(()), pos)
    } else if !(cur_tok(toks, pos) is LParen) {
        (Err(()), pos)
    } else if cur_tok(toks, pos + 1) is RParen {
        (Ok(Seq::empty()), pos + 2)
    } else {
        let (r, p) = parse_args_items_s(toks, pos + 1, (fuel - 1) as nat);
        match r {
            Err(e) => (Err(e), p),
            Ok(args) => if cur_tok(toks, p) is RParen {
                (Ok(args), p + 1)
            } else {
                (Err(()), p)
            },
        }
    }
}

/// Call arguments, one or more, separated by commas.
pub open spec fn parse_args_items_s(toks: Seq<TokenV>, pos: int, fuel: nat) -> (Result<
    Seq<ExprV>,
    (),
>, int)
    decreases fuel,
{
    if fuel == 0 {
        (Err(()), pos)
    } else {
        let fuel2 = (fuel - 1) as nat;
        let (r, p) = parse_expression_s(toks, pos, Precedence::Lowest, fuel2);
        match r {
            Err(e) => (Err(e), p),
            Ok(a) => if cur_tok(toks, p) is Comma {
                let (r2, p2) = parse_args_items_s(toks, p + 1, fuel2);
                match r2 {
                    Err(e) => (Err(e), p2),
                    Ok(rest) => (Ok(seq![a] + rest), p2),
                }
            } else {
                (Ok(seq![a]), p)
            },
        }
    }
}

/// The precedence-climbing loop: while the token under the cursor is an
/// operator binding tighter than the tier, its right-hand side is parsed at
/// the operator's own tier and a left-associative node is built.
pub open spec fn parse_binops_s(
    toks: Seq<TokenV>,
    pos: int,
    left: ExprV,
    prec: Precedence,
    fuel: nat,
) -> (Result<ExprV, ()>, int)
    decreases fuel,
{
    let t = cur_tok(toks, pos);
    if !(t is EOF) && prec_rank(prec_of(t)) > prec_rank(prec) {
        if fuel == 0 {
            (Err(()), pos)
        } else {
            let fuel2 = (fuel - 1) as nat;
            let (r, p) = parse_expression_s(toks, pos + 1, prec_of(t), fuel2);
            match r {
                Err(e) => (Err(e), p),
                Ok(right) => parse_binops_s(
                    toks,
                    p,
                    ExprV::Binary { left: Box::new(left), op: t, right: Box::new(right) },
                    prec,
                    fuel2,
                ),
            }
        }
    } else {
        (Ok(left), pos)
    }
}

/// Outcome of parsing a whole program: statements until the end of input.
pub open spec fn parse_program_s(toks: Seq<TokenV>, pos: int, fuel: nat) -> (Result<
    Seq<StmtV>,
    (),
>, int)
    decreases fuel,
{
    if cur_tok(toks, pos) is EOF {
        (Ok(Seq::empty()), pos)
    } else if fuel == 0 {
        (Err(()), pos)
    } else {
        let fuel2 = (fuel - 1) as nat;
        let (r, p) = parse_stmt_s(toks, pos, fuel2);
        match r {
            Err(e) => (Err(e), p),
            Ok(st) => {
                let (r2, p2) = parse_program_s(toks, p, fuel2);
                match r2 {
                    Err(e) => (Err(e), p2),
                    Ok(rest) => (Ok(seq![st] + rest), p2),
                }
            },
        }
    }
}

/// The fuel the public entry points grant: ample for any descent, since each
/// level of nesting stands on at least one token.
pub open spec fn parse_fuel(toks: Seq<TokenV>) -> nat {
    if 3 * toks.len() + 8 > u64::MAX as nat {
        u64::MAX as nat
    } else {
        3 * toks.len() + 8
    }
}

/// Image of a token vector.
pub open spec fn tokens_view(ts: Seq<Token>) -> Seq<TokenV> {
    ts.map_values(|t: Token| t@)
}

/// Image of a vector of names.
pub open spec fn strs_view(ts: Seq<String>) -> Seq<Seq<char>> {
    ts.map_values(|s: String| s@)
}

/// A well-formed token stream: it ends with the end-of-input marker and
/// holds no other.
pub open spec fn wf_tokens(toks: Seq<TokenV>) -> bool {
    &&& toks.len() >= 1
    &&& toks.last() == TokenV::EOF
    &&& forall|i: int| 0 <= i < toks.len() - 1 ==> (#[trigger] toks[i]) != TokenV::EOF
}

/// Bounds of the string-literal scan: it never moves backward nor past the
/// end of input.
proof fn lemma_read_string_s_bounds(src: Seq<char>, pos: int, acc: Seq<char>)
    requires
        0 <= pos <= src.len(),
    ensures
        pos <= crate::lexer::read_string_s(src, pos, acc).1 <= src.len(),
    decreases src.len() - pos,
{
    if pos < src.len() && src[pos] != '"' {
        if src[pos] == '\\' {
            if pos + 1 < src.len() {
                lemma_read_string_s_bounds(src, pos + 2, acc.push(src[pos + 1]));
            }
        } else {
            lemma_read_string_s_bounds(src, pos + 1, acc.push(src[pos]));
        }
    }
}

/// Bounds of the number scan: it consumes at least the first digit and never
/// moves past the end of input.
proof fn lemma_read_number_s_bounds(src: Seq<char>, start: int)
    requires
        0 <= start < src.len(),
        crate::lexer::is_digit(src[start]),
    ensures
        start + 1 <= crate::lexer::read_number_s(src, start).1 <= src.len(),
{
    crate::lexer::lemma_digits_end(src, start);
    let de = crate::lexer::digits_end(src, start);
    assert(de >= start + 1);
    if de < src.len() && src[de] == '.' {
        crate::lexer::lemma_digits_end(src, de + 1);
    }
}

/// The token scan never moves backward nor past the end of input, and it
/// stands still only at the end-of-input marker.
pub proof fn lemma_next_token_s_bounds(src: Seq<char>, pos: int)
    requires
        0 <= pos <= src.len(),
    ensures
        ({
            let (t, p2) = next_token_s(src, pos);
            pos <= p2 <= src.len() && (!(t is EOF) ==> p2 >= pos + 1)
        }),
{
    crate::lexer::lemma_skip_ws(src, pos);
    let p = crate::lexer::skip_ws_s(src, pos);
    if p < src.len() {
        let c = src[p];
        let q = p + 1;
        if c == '-' {
            if q < src.len() && crate::lexer::is_digit(src[q]) {
                lemma_read_number_s_bounds(src, q);
            }
        } else if c == '"' {
            lemma_read_string_s_bounds(src, q, Seq::empty());
        } else if crate::lexer::is_digit(c) {
            lemma_read_number_s_bounds(src, p);
        } else if crate::lexer::is_letter(c) {
            crate::lexer::lemma_ident_end(src, p);
        }
    }
}

/// The parser: the token stream, fully scanned ahead of time, and a cursor
/// that never passes the end-of-input marker.
pub struct Parser {
    pub tokens: Vec<Token>,
    pub pos: usize,
}

impl Parser {
    /// Scans the lexer's whole input into a token stream and stands at its
    /// first token.
    #[verifier::loop_isolation(false)]
    pub fn new(lexer: Lexer) -> (p: Parser)
        requires
            lexer.pos <= lexer.src@.len(),
        ensures
            tokens_view(p.tokens@) == lex_all(lexer.src@, lexer.pos as int),
            wf_tokens(tokens_view(p.tokens@)),
            p.pos == 0,
            p.pos < p.tokens@.len(),
    {
        let ghost src0 = lexer.src@;
        let ghost pos0 = lexer.pos as int;
        let mut lx = lexer;
        let mut tokens: Vec<Token> = Vec::new();
        loop
            invariant
                lx.src@ == src0,
                lx.pos <= src0.len(),
                lex_all(src0, pos0) == tokens_view(tokens@) + lex_all(src0, lx.pos as int),
                forall|i: int| 0 <= i < tokens@.len() ==> (#[trigger] tokens_view(tokens@)[i])
                    != TokenV::EOF,
            decreases src0.len() - lx.pos,
        {
            let ghost pos_before = lx.pos as int;
            let ghost toks_before = tokens@;
            proof {
                lemma_next_token_s_bounds(src0, pos_before);
            }
            let t = lx.next_token();
            let is_eof = matches!(t, Token::EOF);
            tokens.push(t);
            proof {
                assert(tokens_view(tokens@) =~= tokens_view(toks_before).push(t@));
            }
            if is_eof {
                proof {
                    assert(lex_all(src0, pos_before) =~= seq![TokenV::EOF]);
                    assert(tokens_view(tokens@) + Seq::<TokenV>::empty() =~= tokens_view(
                        tokens@,
                    ));
                    assert(lex_all(src0, pos0) =~= tokens_view(tokens@));
                    assert(tokens_view(tokens@).last() == TokenV::EOF);
                }
                let p = Parser { tokens, pos: 0 };
                return p;
            }
            proof {
                assert(lex_all(src0, pos_before) =~= seq![t@] + lex_all(src0, lx.pos as int));
                assert(tokens_view(toks_before) + (seq![t@] + lex_all(src0, lx.pos as int))
                    =~= tokens_view(tokens@) + lex_all(src0, lx.pos as int));
            }
        }
    }

    /// The token under the cursor.
    fn cur(&self) -> (t: &Token)
        requires
            self.pos < self.tokens@.len(),
        ensures
            t@ == cur_tok(tokens_view(self.tokens@), self.pos as int),
    {
        &self.tokens[self.pos]
    }

    /// Moves the cursor one token forward.
    fn advance(&mut self)
        requires
            old(self).pos + 1 < old(self).tokens@.len(),
        ensures
            final(self).tokens@ == old(self).tokens@,
            final(self).pos == old(self).pos + 1,
    {
        proof {
            vstd::std_specs::vec::axiom_spec_len(&self.tokens);
        }
        self.pos = self.pos + 1;
    }

    /// The fuel the public entry points grant.
    fn full_fuel(&self) -> (f: u64)
        ensures
            f as nat == parse_fuel(tokens_view(self.tokens@)),
    {
        let n64 = self.tokens.len() as u64;
        if n64 > (u64::MAX - 8) / 3 {
            u64::MAX
        } else {
            3 * n64 + 8
        }
    }

    /// Parses a single statement.
    pub fn parse_stmt(&mut self) -> (r: Result<Stmt, SyntaxError>)
        requires
            wf_tokens(tokens_view(old(self).tokens@)),
            old(self).pos < old(self).tokens@.len(),
        ensures
            final(self).tokens@ == old(self).tokens@,
            final(self).pos < final(self).tokens@.len(),
            ({
                let (r2, p2) = parse_stmt_s(
                    tokens_view(old(self).tokens@),
                    old(self).pos as int,
                    parse_fuel(tokens_view(old(self).tokens@)),
                );
                final(self).pos as int == p2 && (match r {
                    Ok(st) => r2 == Ok::<StmtV, ()>(st@),
                    Err(_) => r2 is Err,
                })
            }),
    {
        let fuel = self.full_fuel();
        self.parse_stmt_fueled(fuel)
    }

    /// Parses a single statement under the given fuel.
    #[verifier::loop_isolation(false)]
    #[verifier::spinoff_prover]
    #[verifier::rlimit(100)]
    fn parse_stmt_fueled(&mut self, fuel: u64) -> (r: Result<Stmt, SyntaxError>)
        requires
            wf_tokens(tokens_view(old(self).tokens@)),
            old(self).pos < old(self).tokens@.len(),
        ensures
            final(self).tokens@ == old(self).tokens@,
            final(self).pos < final(self).tokens@.len(),
            ({
                let (r2, p2) = parse_stmt_s(
                    tokens_view(old(self).tokens@),
                    old(self).pos as int,
                    fuel as nat,
                );
                final(self).pos as int == p2 && (match r {
                    Ok(st) => r2 == Ok::<StmtV, ()>(st@),
                    Err(_) => r2 is Err,
                })
            }),
        decreases fuel, 1int,
    {
        let ghost toks = tokens_view(self.tokens@);
        if fuel == 0 {
            return Err(SyntaxError);
        }
        let fuel2 = fuel - 1;
        let t = self.cur().clone();
        match t {
            Token::Var => {
                self.advance();
                let name = match self.cur().clone() {
                    Token::Identifier { name } => name,
                    _ => {
                        return Err(SyntaxError);
                    },
                };
                self.advance();
                if !matches!(self.cur(), Token::Equal) {
                    return Err(SyntaxError);
                }
                self.advance();
                let value = match self.parse_expression_fueled(Precedence::Lowest, fuel2) {
                    Ok(e) => e,
                    Err(e) => {
                        return Err(e);
                    },
                };
                if !matches!(self.cur(), Token::Semicolon) {
                    return Err(SyntaxError);
                }
                self.advance();
                Ok(Stmt::VarDecl { name, value })
            },
            Token::Print => {
                self.advance();
                let e = match self.parse_expression_fueled(Precedence::Lowest, fuel2) {
                    Ok(e) => e,
                    Err(e) => {
                        return Err(e);
                    },
                };
                if !matches!(self.cur(), Token::Semicolon) {
                    return Err(SyntaxError);
                }
                self.advance();
                Ok(Stmt::PrntStmt(e))
            },
            Token::Fn => self.parse_fn_stmt(fuel),
            Token::Return => {
                self.advance();
                if matches!(self.cur(), Token::Semicolon) {
                    self.advance();
                    return Ok(Stmt::Return(None));
                }
                let e = match self.parse_expression_fueled(Precedence::Lowest, fuel2) {
                    Ok(e) => e,
                    Err(e) => {
                        return Err(e);
                    },
                };
                if !matches!(self.cur(), Token::Semicolon) {
                    return Err(SyntaxError);
                }
                self.advance();
                Ok(Stmt::Return(Some(e)))
            },
            Token::Identifier { name } => {
                let n = self.tokens.len();
                let eq_next: bool = self.pos < n - 1 && matches!(self.tokens[self.pos + 1], Token::Equal);
                proof {
                    assert(cur_tok(toks, self.pos + 1) is Equal <==> eq_next);
                }
                if eq_next {
                    self.advance();
                    self.advance();
                    let value = match self.parse_expression_fueled(Precedence::Lowest, fuel2) {
                        Ok(e) => e,
                        Err(e) => {
                            return Err(e);
                        },
                    };
                    if !matches!(self.cur(), Token::Semicolon) {
                        return Err(SyntaxError);
                    }
                    self.advance();
                    Ok(Stmt::VarDecl { name, value })
                } else {
                    let e = match self.parse_expression_fueled(Precedence::Lowest, fuel2) {
                        Ok(e) => e,
                        Err(e) => {
                            return Err(e);
                        },
                    };
                    if !matches!(self.cur(), Token::Semicolon) {
                        return Err(SyntaxError);
                    }
                    self.advance();
                    Ok(Stmt::ExprStmt(e))
                }
            },
            Token::For => {
                self.advance();
                let var_name = match self.cur().clone() {
                    Token::Identifier { name } => name,
                    _ => {
                        return Err(SyntaxError);
                    },
                };
                self.advance();
                if !matches!(self.cur(), Token::In) {
                    return Err(SyntaxError);
                }
                self.advance();
                let range = match self.parse_expression_fueled(Precedence::Lowest, fuel2) {
                    Ok(e) => e,
                    Err(e) => {
                        return Err(e);
                    },
                };
                if !matches!(self.cur(), Token::LBrace) {
                    return Err(SyntaxError);
                }
                self.advance();
                let body = match self.parse_block_fueled(fuel2) {
                    Ok(b) => b,
                    Err(e) => {
                        return Err(e);
                    },
                };
                Ok(Stmt::ForStmt { var_name, range, body: Box::new(body) })
            },
            Token::If | Token::Elif => self.parse_if_stmt(fuel),
            _ => {
                let e = match self.parse_expression_fueled(Precedence::Lowest, fuel2) {
                    Ok(e) => e,
                    Err(e) => {
                        return Err(e);
                    },
                };
                if !matches!(self.cur(), Token::Semicolon) {
                    return Err(SyntaxError);
                }
                self.advance();
                Ok(Stmt::ExprStmt(e))
            },
        }
    }


    /// Parses a function declaration, whose keyword sits under the cursor.
    #[verifier::loop_isolation(false)]
    fn parse_fn_stmt(&mut self, fuel: u64) -> (r: Result<Stmt, SyntaxError>)
        requires
            wf_tokens(tokens_view(old(self).tokens@)),
            old(self).pos < old(self).tokens@.len(),
            fuel >= 1,
            cur_tok(tokens_view(old(self).tokens@), old(self).pos as int) is Fn,
        ensures
            final(self).tokens@ == old(self).tokens@,
            final(self).pos < final(self).tokens@.len(),
            ({
                let (r2, p2) = parse_stmt_s(
                    tokens_view(old(self).tokens@),
                    old(self).pos as int,
                    fuel as nat,
                );
                final(self).pos as int == p2 && (match r {
                    Ok(st) => r2 == Ok::<StmtV, ()>(st@),
                    Err(_) => r2 is Err,
                })
            }),
        decreases fuel, 0int,
    {
        let ghost toks = tokens_view(self.tokens@);
        let fuel2 = fuel - 1;
        self.advance();
        let name = match self.cur().clone() {
            Token::Identifier { name } => name,
            _ => {
                return Err(SyntaxError);
            },
        };
        self.advance();
        if !matches!(self.cur(), Token::LParen) {
            return Err(SyntaxError);
        }
        self.advance();
        let params = match self.parse_params(fuel2) {
            Ok(ps) => ps,
            Err(e) => {
                return Err(e);
            },
        };
        if !matches!(self.cur(), Token::RParen) {
            return Err(SyntaxError);
        }
        self.advance();
        if !matches!(self.cur(), Token::LBrace) {
            return Err(SyntaxError);
        }
        self.advance();
        let body = match self.parse_block_fueled(fuel2) {
            Ok(b) => b,
            Err(e) => {
                return Err(e);
            },
        };
        Ok(Stmt::Function { name, params, body: Box::new(body) })
    }

    /// Parses a conditional, whose leading keyword sits under the cursor.
    #[verifier::loop_isolation(false)]
    #[verifier::spinoff_prover]
    #[verifier::rlimit(100)]
    fn parse_if_stmt(&mut self, fuel: u64) -> (r: Result<Stmt, SyntaxError>)
        requires
            wf_tokens(tokens_view(old(self).tokens@)),
            old(self).pos < old(self).tokens@.len(),
            fuel >= 1,
            cur_tok(tokens_view(old(self).tokens@), old(self).pos as int) is If || cur_tok(
                tokens_view(old(self).tokens@),
                old(self).pos as int,
            ) is Elif,
        ensures
            final(self).tokens@ == old(self).tokens@,
            final(self).pos < final(self).tokens@.len(),
            ({
                let (r2, p2) = parse_stmt_s(
                    tokens_view(old(self).tokens@),
                    old(self).pos as int,
                    fuel as nat,
                );
                final(self).pos as int == p2 && (match r {
                    Ok(st) => r2 == Ok::<StmtV, ()>(st@),
                    Err(_) => r2 is Err,
                })
            }),
        decreases fuel, 0int,
    {
        let ghost toks = tokens_view(self.tokens@);
        let fuel2 = fuel - 1;
        self.advance();
        let condition = match self.parse_expression_fueled(Precedence::Lowest, fuel2) {
            Ok(e) => e,
            Err(e) => {
                return Err(e);
            },
        };
        if !matches!(self.cur(), Token::LBrace) {
            return Err(SyntaxError);
        }
        self.advance();
        let then_block = match self.parse_block_fueled(fuel2) {
            Ok(b) => b,
            Err(e) => {
                return Err(e);
            },
        };
        if matches!(self.cur(), Token::Else) {
            self.advance();
            if !matches!(self.cur(), Token::LBrace) {
                return Err(SyntaxError);
            }
            self.advance();
            let else_block = match self.parse_block_fueled(fuel2) {
                Ok(b) => b,
                Err(e) => {
                    return Err(e);
                },
            };
            Ok(
                Stmt::IfStmt {
                    condition,
                    then_branch: Box::new(then_block),
                    else_branch: Some(Box::new(else_block)),
                },
            )
        } else if matches!(self.cur(), Token::Elif) {
            let elif_stmt = match self.parse_stmt_fueled(fuel2) {
                Ok(st) => st,
                Err(e) => {
                    return Err(e);
                },
            };
            Ok(
                Stmt::IfStmt {
                    condition,
                    then_branch: Box::new(then_block),
                    else_branch: Some(Box::new(elif_stmt)),
                },
            )
        } else {
            Ok(
                Stmt::IfStmt {
                    condition,
                    then_branch: Box::new(then_block),
                    else_branch: None,
                },
            )
        }
    }

    /// Parses a function declaration's parameter names, up to the closing
    /// parenthesis.
    #[verifier::loop_isolation(false)]
    fn parse_params(&mut self, fuel: u64) -> (r: Result<Vec<String>, SyntaxError>)
        requires
            wf_tokens(tokens_view(old(self).tokens@)),
            old(self).pos < old(self).tokens@.len(),
        ensures
            final(self).tokens@ == old(self).tokens@,
            final(self).pos < final(self).tokens@.len(),
            ({
                let (r2, p2) = parse_params_s(
                    tokens_view(old(self).tokens@),
                    old(self).pos as int,
                    fuel as nat,
                );
                final(self).pos as int == p2 && (match r {
                    Ok(ps) => r2 == Ok::<Seq<Seq<char>>, ()>(strs_view(ps@)),
                    Err(_) => r2 is Err,
                })
            }),
        decreases fuel, 1int,
    {
        let ghost toks = tokens_view(self.tokens@);
        let ghost pos0 = self.pos as int;
        let mut out: Vec<String> = Vec::new();
        if matches!(self.cur(), Token::RParen) {
            proof {
                assert(strs_view(out@) =~= Seq::<Seq<char>>::empty());
            }
            return Ok(out);
        }
        if fuel == 0 {
            return Err(SyntaxError);
        }
        proof {
            assert(parse_params_s(toks, pos0, fuel as nat) == parse_params_rest_s(
                toks,
                pos0,
                fuel as nat,
            ));
        }
        let mut fuel_now: u64 = fuel;
        loop
            invariant
                wf_tokens(toks),
                self.tokens@ == old(self).tokens@,
                toks == tokens_view(self.tokens@),
                self.pos < self.tokens@.len(),
                fuel_now <= fuel,
                ({
                    let (sf_r, sf_p) = parse_params_rest_s(toks, self.pos as int, fuel_now as nat);
                    let (g_r, g_p) = parse_params_s(toks, pos0, fuel as nat);
                    (match sf_r {
                        Ok(rest) => g_r == Ok::<Seq<Seq<char>>, ()>(strs_view(out@) + rest) && g_p
                            == sf_p,
                        Err(_) => g_r is Err && g_p == sf_p,
                    })
                }),
            decreases fuel_now,
        {
            let ghost pos_top = self.pos as int;
            let ghost fuel_top = fuel_now;
            if fuel_now == 0 {
                proof {
                    assert(parse_params_rest_s(toks, pos_top, 0) == (
                    Err::<Seq<Seq<char>>, ()>(()),
                    pos_top,
                    ));
                }
                return Err(SyntaxError);
            }
            let ghost out_pre = out@;
            let name = match self.cur().clone() {
                Token::Identifier { name } => name,
                _ => {
                    proof {
                        assert(!(cur_tok(toks, pos_top) is Identifier));
                        assert(parse_params_rest_s(toks, pos_top, fuel_top as nat) == (
                        Err::<Seq<Seq<char>>, ()>(()),
                        pos_top,
                        ));
                    }
                    return Err(SyntaxError);
                },
            };
            let n = self.tokens.len();
            let comma_next: bool = self.pos < n - 1 && matches!(
                self.tokens[self.pos + 1],
                Token::Comma,
            );
            proof {
                assert(cur_tok(toks, pos_top + 1) is Comma <==> comma_next);
            }
            if comma_next {
                self.advance();
                self.advance();
                out.push(name);
                proof {
                    assert(out@.drop_last() =~= out_pre);
                    assert(strs_view(out@) =~= strs_view(out_pre).push(out@[out@.len() - 1]@));
                    let nm = out@[out@.len() - 1]@;
                    let (sf2_r, sf2_p) = parse_params_rest_s(
                        toks,
                        self.pos as int,
                        (fuel_top - 1) as nat,
                    );
                    assert(parse_params_rest_s(toks, pos_top, fuel_top as nat) == (
                    match sf2_r {
                        Err(e) => (Err::<Seq<Seq<char>>, ()>(e), sf2_p)
                        ,
                        Ok(rest) => (Ok::<Seq<Seq<char>>, ()>(seq![nm] + rest), sf2_p)
                        ,
                    }));
                    if sf2_r is Ok {
                        assert(strs_view(out_pre) + (seq![nm] + sf2_r->Ok_0) =~= strs_view(out@)
                            + sf2_r->Ok_0);
                    }
                }
                fuel_now = fuel_now - 1;
            } else {
                self.advance();
                out.push(name);
                proof {
                    assert(out@.drop_last() =~= out_pre);
                    assert(strs_view(out@) =~= strs_view(out_pre).push(out@[out@.len() - 1]@));
                    let nm = out@[out@.len() - 1]@;
                    assert(parse_params_rest_s(toks, pos_top, fuel_top as nat) == (
                    Ok::<Seq<Seq<char>>, ()>(seq![nm]),
                    pos_top + 1,
                    ));
                    assert(strs_view(out_pre) + seq![nm] =~= strs_view(out@));
                }
                return Ok(out);
            }
        }
    }

    /// Parses the statements of a block and its closing brace.
    #[verifier::loop_isolation(false)]
    fn parse_block_fueled(&mut self, fuel: u64) -> (r: Result<Stmt, SyntaxError>)
        requires
            wf_tokens(tokens_view(old(self).tokens@)),
            old(self).pos < old(self).tokens@.len(),
        ensures
            final(self).tokens@ == old(self).tokens@,
            final(self).pos < final(self).tokens@.len(),
            ({
                let (r2, p2) = parse_block_s(
                    tokens_view(old(self).tokens@),
                    old(self).pos as int,
                    fuel as nat,
                );
                final(self).pos as int == p2 && (match r {
                    Ok(st) => r2 == Ok::<StmtV, ()>(st@),
                    Err(_) => r2 is Err,
                })
            }),
        decreases fuel, 1int,
    {
        let ghost toks = tokens_view(self.tokens@);
        let ghost pos0 = self.pos as int;
        if fuel == 0 {
            return Err(SyntaxError);
        }
        let mut out: Vec<Stmt> = Vec::new();
        let mut fuel_now: u64 = fuel - 1;
        proof {
            assert(crate::ast::stmts_view(out@) =~= Seq::<StmtV>::empty());
        }
        loop
            invariant
                wf_tokens(toks),
                self.tokens@ == old(self).tokens@,
                toks == tokens_view(self.tokens@),
                self.pos < self.tokens@.len(),
                fuel_now <= fuel - 1,
                ({
                    let (sf_r, sf_p) = parse_block_items_s(toks, self.pos as int, fuel_now as nat);
                    let (g_r, g_p) = parse_block_items_s(toks, pos0, (fuel - 1) as nat);
                    (match sf_r {
                        Ok(rest) => g_r == Ok::<Seq<StmtV>, ()>(
                            crate::ast::stmts_view(out@) + rest,
                        ) && g_p == sf_p,
                        Err(_) => g_r is Err && g_p == sf_p,
                    })
                }),
            decreases fuel_now,
        {
            let done: bool = matches!(self.cur(), Token::RBrace) || matches!(
                self.cur(),
                Token::EOF,
            );
            if done {
                break ;
            }
            if fuel_now == 0 {
                return Err(SyntaxError);
            }
            let ghost out_pre = out@;
            let st = match self.parse_stmt_fueled(fuel_now - 1) {
                Ok(st) => st,
                Err(e) => {
                    return Err(e);
                },
            };
            out.push(st);
            proof {
                assert(out@.drop_last() =~= out_pre);
                assert(crate::ast::stmts_view(out@) =~= crate::ast::stmts_view(out_pre).push(
                    out@[out@.len() - 1]@,
                ));
                let (sf2_r, sf2_p) = parse_block_items_s(
                    toks,
                    self.pos as int,
                    (fuel_now - 1) as nat,
                );
                if sf2_r is Ok {
                    assert(crate::ast::stmts_view(out_pre) + (seq![out@[out@.len() - 1]@]
                        + sf2_r->Ok_0) =~= crate::ast::stmts_view(out@) + sf2_r->Ok_0);
                }
            }
            fuel_now = fuel_now - 1;
        }
        if !matches!(self.cur(), Token::RBrace) {
            return Err(SyntaxError);
        }
        self.advance();
        proof {
            assert(crate::ast::stmts_view(out@) + Seq::<StmtV>::empty() =~= crate::ast::stmts_view(
                out@,
            ));
        }
        Ok(Stmt::Block(out))
    }

    /// Parses an expression with precedence climbing, at the given tier.
    pub fn parse_expression(&mut self, prec: Precedence) -> (r: Result<Expr, SyntaxError>)
        requires
            wf_tokens(tokens_view(old(self).tokens@)),
            old(self).pos < old(self).tokens@.len(),
        ensures
            final(self).tokens@ == old(self).tokens@,
            final(self).pos < final(self).tokens@.len(),
            ({
                let (r2, p2) = parse_expression_s(
                    tokens_view(old(self).tokens@),
                    old(self).pos as int,
                    prec,
                    parse_fuel(tokens_view(old(self).tokens@)),
                );
                final(self).pos as int == p2 && (match r {
                    Ok(e) => r2 == Ok::<ExprV, ()>(e@),
                    Err(_) => r2 is Err,
                })
            }),
    {
        let fuel = self.full_fuel();
        self.parse_expression_fueled(prec, fuel)
    }

    /// Parses an expression at the given tier under the given fuel.
    #[verifier::loop_isolation(false)]
    fn parse_expression_fueled(&mut self, prec: Precedence, fuel: u64) -> (r: Result<
        Expr,
        SyntaxError,
    >)
        requires
            wf_tokens(tokens_view(old(self).tokens@)),
            old(self).pos < old(self).tokens@.len(),
        ensures
            final(self).tokens@ == old(self).tokens@,
            final(self).pos < final(self).tokens@.len(),
            ({
                let (r2, p2) = parse_expression_s(
                    tokens_view(old(self).tokens@),
                    old(self).pos as int,
                    prec,
                    fuel as nat,
                );
                final(self).pos as int == p2 && (match r {
                    Ok(e) => r2 == Ok::<ExprV, ()>(e@),
                    Err(_) => r2 is Err,
                })
            }),
        decreases fuel, 1int,
    {
        let ghost toks = tokens_view(self.tokens@);
        if fuel == 0 {
            return Err(SyntaxError);
        }
        let fuel2 = fuel - 1;
        let mut left = match self.parse_primary(fuel2) {
            Ok(e) => e,
            Err(e) => {
                return Err(e);
            },
        };
        let ghost pos_after_primary = self.pos as int;
        let ghost left0 = left@;
        let mut fuel_now: u64 = fuel2;
        loop
            invariant
                wf_tokens(toks),
                self.tokens@ == old(self).tokens@,
                toks == tokens_view(self.tokens@),
                self.pos < self.tokens@.len(),
                fuel_now <= fuel2,
                parse_binops_s(toks, pos_after_primary, left0, prec, fuel2 as nat)
                    == parse_binops_s(toks, self.pos as int, left@, prec, fuel_now as nat),
            decreases fuel_now,
        {
            let t = self.cur().clone();
            if matches!(t, Token::EOF) {
                return Ok(left);
            }
            let tier = precedence(&t);
            if !(prec_rank_of(tier) > prec_rank_of(prec)) {
                return Ok(left);
            }
            if fuel_now == 0 {
                return Err(SyntaxError);
            }
            self.advance();
            let right = match self.parse_expression_fueled(tier, fuel_now - 1) {
                Ok(e) => e,
                Err(e) => {
                    return Err(e);
                },
            };
            left = Expr::Binary { left: Box::new(left), op: t, right: Box::new(right) };
            fuel_now = fuel_now - 1;
        }
    }

    /// Parses a primary expression.
    #[verifier::loop_isolation(false)]
    fn parse_primary(&mut self, fuel: u64) -> (r: Result<Expr, SyntaxError>)
        requires
            wf_tokens(tokens_view(old(self).tokens@)),
            old(self).pos < old(self).tokens@.len(),
        ensures
            final(self).tokens@ == old(self).tokens@,
            final(self).pos < final(self).tokens@.len(),
            ({
                let (r2, p2) = parse_primary_s(
                    tokens_view(old(self).tokens@),
                    old(self).pos as int,
                    fuel as nat,
                );
                final(self).pos as int == p2 && (match r {
                    Ok(e) => r2 == Ok::<ExprV, ()>(e@),
                    Err(_) => r2 is Err,
                })
            }),
        decreases fuel, 1int,
    {
        let ghost toks = tokens_view(self.tokens@);
        if fuel == 0 {
            return Err(SyntaxError);
        }
        let fuel2 = fuel - 1;
        let t = self.cur().clone();
        match t {
            Token::Number(n) => {
                self.advance();
                Ok(Expr::Number(n))
            },
            Token::Float(b) => {
                self.advance();
                Ok(Expr::Float(b))
            },
            Token::String(s) => {
                self.advance();
                Ok(Expr::String(s))
            },
            Token::Bool(b) => {
                self.advance();
                Ok(Expr::Bool(b))
            },
            Token::Range => {
                self.advance();
                if !matches!(self.cur(), Token::LParen) {
                    return Err(SyntaxError);
                }
                self.advance();
                let arg = match self.parse_expression_fueled(Precedence::Lowest, fuel2) {
                    Ok(e) => e,
                    Err(e) => {
                        return Err(e);
                    },
                };
                if !matches!(self.cur(), Token::RParen) {
                    return Err(SyntaxError);
                }
                self.advance();
                Ok(Expr::Range(Box::new(arg)))
            },
            Token::LParen => {
                self.advance();
                let e = match self.parse_expression_fueled(Precedence::Lowest, fuel2) {
                    Ok(e) => e,
                    Err(e) => {
                        return Err(e);
                    },
                };
                if !matches!(self.cur(), Token::RParen) {
                    return Err(SyntaxError);
                }
                self.advance();
                Ok(e)
            },
            Token::LBrace => {
                self.advance();
                let e = match self.parse_expression_fueled(Precedence::Lowest, fuel2) {
                    Ok(e) => e,
                    Err(e) => {
                        return Err(e);
                    },
                };
                if !matches!(self.cur(), Token::RBrace) {
                    return Err(SyntaxError);
                }
                self.advance();
                Ok(e)
            },
            Token::Identifier { name } => {
                let n = self.tokens.len();
                let paren_next: bool = self.pos < n - 1 && matches!(self.tokens[self.pos + 1], Token::LParen);
                proof {
                    assert(cur_tok(toks, self.pos + 1) is LParen <==> paren_next);
                }
                if paren_next {
                    self.advance();
                    let arguments = match self.parse_call_arguments(fuel2) {
                        Ok(args) => args,
                        Err(e) => {
                            return Err(e);
                        },
                    };
                    Ok(Expr::Call { callee: name, arguments })
                } else {
                    self.advance();
                    Ok(Expr::Var(name))
                }
            },
            _ => Err(SyntaxError),
        }
    }

    /// Parses a call's argument list, parentheses included.
    #[verifier::loop_isolation(false)]
    fn parse_call_arguments(&mut self, fuel: u64) -> (r: Result<Vec<Expr>, SyntaxError>)
        requires
            wf_tokens(tokens_view(old(self).tokens@)),
            old(self).pos < old(self).tokens@.len(),
        ensures
            final(self).tokens@ == old(self).tokens@,
            final(self).pos < final(self).tokens@.len(),
            ({
                let (r2, p2) = parse_call_args_s(
                    tokens_view(old(self).tokens@),
                    old(self).pos as int,
                    fuel as nat,
                );
                final(self).pos as int == p2 && (match r {
                    Ok(args) => r2 == Ok::<Seq<ExprV>, ()>(crate::ast::exprs_view(args@)),
                    Err(_) => r2 is Err,
                })
            }),
        decreases fuel, 1int,
    {
        let ghost toks = tokens_view(self.tokens@);
        if fuel == 0 {
            return Err(SyntaxError);
        }
        if !matches!(self.cur(), Token::LParen) {
            return Err(SyntaxError);
        }
        let n = self.tokens.len();
                let rparen_next: bool = self.pos < n - 1 && matches!(self.tokens[self.pos + 1], Token::RParen);
        proof {
            assert(cur_tok(toks, self.pos + 1) is RParen <==> rparen_next);
        }
        if rparen_next {
            self.advance();
            self.advance();
            let out: Vec<Expr> = Vec::new();
            proof {
                assert(crate::ast::exprs_view(out@) =~= Seq::<ExprV>::empty());
            }
            return Ok(out);
        }
        self.advance();
        let ghost items_pos = self.pos as int;
        let mut out: Vec<Expr> = Vec::new();
        let mut fuel_now: u64 = fuel - 1;
        proof {
            assert(crate::ast::exprs_view(out@) =~= Seq::<ExprV>::empty());
        }
        loop
            invariant
                wf_tokens(toks),
                self.tokens@ == old(self).tokens@,
                toks == tokens_view(self.tokens@),
                self.pos < self.tokens@.len(),
                fuel_now <= fuel - 1,
                ({
                    let (sf_r, sf_p) = parse_args_items_s(toks, self.pos as int, fuel_now as nat);
                    let (g_r, g_p) = parse_args_items_s(toks, items_pos, (fuel - 1) as nat);
                    (match sf_r {
                        Ok(rest) => g_r == Ok::<Seq<ExprV>, ()>(
                            crate::ast::exprs_view(out@) + rest,
                        ) && g_p == sf_p,
                        Err(_) => g_r is Err && g_p == sf_p,
                    })
                }),
            decreases fuel_now,
        {
            if fuel_now == 0 {
                return Err(SyntaxError);
            }
            let ghost out_pre = out@;
            let a = match self.parse_expression_fueled(Precedence::Lowest, fuel_now - 1) {
                Ok(e) => e,
                Err(e) => {
                    return Err(e);
                },
            };
            out.push(a);
            proof {
                assert(out@.drop_last() =~= out_pre);
                assert(crate::ast::exprs_view(out@) =~= crate::ast::exprs_view(out_pre).push(
                    out@[out@.len() - 1]@,
                ));
            }
            if matches!(self.cur(), Token::Comma) {
                self.advance();
                proof {
                    let (sf2_r, sf2_p) = parse_args_items_s(
                        toks,
                        self.pos as int,
                        (fuel_now - 1) as nat,
                    );
                    if sf2_r is Ok {
                        assert(crate::ast::exprs_view(out_pre) + (seq![out@[out@.len() - 1]@]
                            + sf2_r->Ok_0) =~= crate::ast::exprs_view(out@) + sf2_r->Ok_0);
                    }
                }
                fuel_now = fuel_now - 1;
            } else {
                proof {
                    assert(crate::ast::exprs_view(out_pre) + seq![out@[out@.len() - 1]@]
                        =~= crate::ast::exprs_view(out@));
                }
                if !matches!(self.cur(), Token::RParen) {
                    return Err(SyntaxError);
                }
                self.advance();
                return Ok(out);
            }
        }
    }

    /// Parses a whole program: statements until the end of input.
    #[verifier::loop_isolation(false)]
    pub fn parse(&mut self) -> (r: Result<Vec<Stmt>, SyntaxError>)
        requires
            wf_tokens(tokens_view(old(self).tokens@)),
            old(self).pos < old(self).tokens@.len(),
        ensures
            final(self).tokens@ == old(self).tokens@,
            final(self).pos < final(self).tokens@.len(),
            ({
                let (r2, p2) = parse_program_s(
                    tokens_view(old(self).tokens@),
                    old(self).pos as int,
                    parse_fuel(tokens_view(old(self).tokens@)),
                );
                final(self).pos as int == p2 && (match r {
                    Ok(stmts) => r2 == Ok::<Seq<StmtV>, ()>(crate::ast::stmts_view(stmts@)),
                    Err(_) => r2 is Err,
                })
            }),
    {
        let ghost toks = tokens_view(self.tokens@);
        let ghost pos0 = self.pos as int;
        let fuel = self.full_fuel();
        let mut out: Vec<Stmt> = Vec::new();
        let mut fuel_now: u64 = fuel;
        proof {
            assert(crate::ast::stmts_view(out@) =~= Seq::<StmtV>::empty());
        }
        loop
            invariant
                wf_tokens(toks),
                self.tokens@ == old(self).tokens@,
                toks == tokens_view(self.tokens@),
                self.pos < self.tokens@.len(),
                fuel_now <= fuel,
                ({
                    let (sf_r, sf_p) = parse_program_s(toks, self.pos as int, fuel_now as nat);
                    let (g_r, g_p) = parse_program_s(toks, pos0, fuel as nat);
                    (match sf_r {
                        Ok(rest) => g_r == Ok::<Seq<StmtV>, ()>(
                            crate::ast::stmts_view(out@) + rest,
                        ) && g_p == sf_p,
                        Err(_) => g_r is Err && g_p == sf_p,
                    })
                }),
            decreases fuel_now,
        {
            if matches!(self.cur(), Token::EOF) {
                break ;
            }
            if fuel_now == 0 {
                return Err(SyntaxError);
            }
            let ghost out_pre = out@;
            let st = match self.parse_stmt_fueled(fuel_now - 1) {
                Ok(st) => st,
                Err(e) => {
                    return Err(e);
                },
            };
            out.push(st);
            proof {
                assert(out@.drop_last() =~= out_pre);
                assert(crate::ast::stmts_view(out@) =~= crate::ast::stmts_view(out_pre).push(
                    out@[out@.len() - 1]@,
                ));
                let (sf2_r, sf2_p) = parse_program_s(toks, self.pos as int, (fuel_now - 1) as nat);
                if sf2_r is Ok {
                    assert(crate::ast::stmts_view(out_pre) + (seq![out@[out@.len() - 1]@]
                        + sf2_r->Ok_0) =~= crate::ast::stmts_view(out@) + sf2_r->Ok_0);
                }
            }
            fuel_now = fuel_now - 1;
        }
        proof {
            assert(crate::ast::stmts_view(out@) + Seq::<StmtV>::empty() =~= crate::ast::stmts_view(
                out@,
            ));
        }
        Ok(out)
    }
}

} // verus!
