//! The whole pipeline in one call: characters to tokens to a tree to a run,
//! with the printed lines handed back beside the result.

use vstd::prelude::*;
use crate::evalulator::{eval_program, eval_program_s, out_view};
use crate::lexer::Lexer;
use crate::parser::{lex_all, parse_fuel, parse_program_s, Parser};
use crate::types::{Type, RuntimeError};

verus! {

/// What stops a run: a syntax error, or the first runtime error.
pub enum RunError {
    Syntax,
    Runtime(RuntimeError),
}

/// Runs a whole source text with the given fuel. The lines printed before
/// any failure come back beside the result; a syntax error aborts before
/// anything runs.
pub fn run_source(source: &str, fuel: u64) -> (r: (Vec<String>, Result<Type, RunError>))
    ensures
        ({
            let toks = lex_all(source@, 0);
            let (pr, pp) = parse_program_s(toks, 0, parse_fuel(toks));
            match pr {
                Err(_) => r.0@.len() == 0 && (r.1 matches Err(RunError::Syntax)),
                Ok(stmts) => ({
                    let (st2, r2) = eval_program_s(stmts, fuel as nat);
                    out_view(r.0@) == st2.out && (match r2 {
                        Ok(v) => r.1 matches Ok(t) && t@ == v,
                        Err(e) => r.1 matches Err(re) && (re matches RunError::Runtime(rr) && rr@
                            == e),
                    })
                }),
            }
        }),
{
    let lexer = Lexer::new(source);
    let mut parser = Parser::new(lexer);
    match parser.parse() {
        Err(_) => (Vec::new(), Err(RunError::Syntax)),
        Ok(stmts) => {
            let (out, res) = eval_program(&stmts, fuel);
            match res {
                Ok(v) => (out, Ok(v)),
                Err(e) => (out, Err(RunError::Runtime(e))),
            }
        },
    }
}

} // verus!
