use fig::runner::{run_source, RunError};
use fig::types::{RuntimeError, Type};

const FUEL: u64 = 1_000_000;

fn run_ok(src: &str) -> Type {
    let (_out, res) = run_source(src, FUEL);
    match res {
        Ok(v) => v,
        Err(RunError::Syntax) => panic!("unexpected syntax error"),
        Err(RunError::Runtime(_)) => panic!("unexpected runtime error"),
    }
}

fn run_err(src: &str) -> RuntimeError {
    let (_out, res) = run_source(src, FUEL);
    match res {
        Ok(_) => panic!("expected a runtime error"),
        Err(RunError::Syntax) => panic!("expected a runtime error, got a syntax error"),
        Err(RunError::Runtime(e)) => e,
    }
}

fn run_output(src: &str) -> Vec<String> {
    let (out, res) = run_source(src, FUEL);
    assert!(res.is_ok());
    out
}

#[test]
fn final_value_of_simple_program() {
    let v = run_ok("var x = 5; var y = 10; var z = x + y; z + x;");
    assert!(matches!(v, Type::Int(20)));
}

#[test]
fn integer_division_truncates() {
    assert!(matches!(run_ok("7 / 2;"), Type::Int(3)));
    assert!(matches!(run_ok("-7 / 2;"), Type::Int(-3)));
}

#[test]
fn float_promotion() {
    let v = run_ok("7.0 / 2;");
    assert!(matches!(v, Type::Float(b) if b == (3.5f64).to_bits()));
    let v = run_ok("2.5 + 1;");
    assert!(matches!(v, Type::Float(b) if b == (3.5f64).to_bits()));
    let v = run_ok("2 * 1.25;");
    assert!(matches!(v, Type::Float(b) if b == (2.5f64).to_bits()));
    let v = run_ok("1 - 0.5;");
    assert!(matches!(v, Type::Float(b) if b == (0.5f64).to_bits()));
}

#[test]
fn division_by_zero_fails() {
    assert!(matches!(run_err("1 / 0;"), RuntimeError::DivisionByZero));
    assert!(matches!(run_err("1.5 / 0.0;"), RuntimeError::DivisionByZero));
    assert!(matches!(run_err("0 / 0;"), RuntimeError::DivisionByZero));
    assert!(matches!(run_err("\"a\" / 0;"), RuntimeError::DivisionByZero));
}

#[test]
fn string_concatenation() {
    let v = run_ok("\"foo\" + \"bar\";");
    match v {
        Type::Str(s) => assert_eq!(s, "foobar"),
        _ => panic!("expected a string"),
    }
}

#[test]
fn string_ordering_is_by_length() {
    assert!(matches!(run_ok("\"ab\" < \"xyz\";"), Type::Bool(true)));
    assert!(matches!(run_ok("\"zzz\" < \"ab\";"), Type::Bool(false)));
    assert!(matches!(run_ok("\"ab\" > \"xyz\";"), Type::Bool(false)));
    assert!(matches!(run_ok("\"ab\" <= \"xy\";"), Type::Bool(true)));
    assert!(matches!(run_ok("\"ab\" >= \"xyz\";"), Type::Bool(false)));
}

#[test]
fn equality_across_variants_is_false_not_an_error() {
    assert!(matches!(run_ok("1 == \"1\";"), Type::Bool(false)));
    assert!(matches!(run_ok("1 != \"1\";"), Type::Bool(true)));
    assert!(matches!(run_ok("true == 1;"), Type::Bool(false)));
    assert!(matches!(run_ok("2 == 2;"), Type::Bool(true)));
}

#[test]
fn closures_share_their_declaration_scope() {
    let v = run_ok(
        "var r = 0; \
         fn outer() { var a = 1; fn inner() { return a; } a = 2; r = inner(); return 0; } \
         outer(); r;",
    );
    assert!(matches!(v, Type::Int(2)));
}

#[test]
fn closure_declared_in_branch_scope() {
    let v = run_ok(
        "var r = 0; \
         if true { var a = 10; fn g() { return a + 1; } a = 20; r = g(); } \
         r;",
    );
    assert!(matches!(v, Type::Int(21)));
}

#[test]
fn for_loop_runs_n_times() {
    assert!(matches!(run_ok("var c = 0; for i in range(3) { c = c + 1; } c;"), Type::Int(3)));
    assert!(matches!(run_ok("var c = 0; for i in range(0) { c = c + 1; } c;"), Type::Int(0)));
}

#[test]
fn for_loop_binds_the_loop_variable() {
    assert!(matches!(run_ok("var s = 0; for i in range(4) { s = s + i; } s;"), Type::Int(6)));
}

#[test]
fn range_over_negative_or_non_integer_fails() {
    assert!(matches!(run_err("range(-1);"), RuntimeError::TypeMismatch));
    assert!(matches!(run_err("range(true);"), RuntimeError::TypeMismatch));
    assert!(matches!(run_err("var f = 1.5; range(f);"), RuntimeError::TypeMismatch));
    assert!(matches!(run_err("for i in 3 { i; }"), RuntimeError::TypeMismatch));
}

#[test]
fn var_redeclaration_mutates_enclosing_binding() {
    let v = run_ok("var x = 1; if true { var x = 99; } x;");
    assert!(matches!(v, Type::Int(99)));
    let v = run_ok("var x = 1; for i in range(1) { var x = 7; } x;");
    assert!(matches!(v, Type::Int(7)));
}

#[test]
fn fresh_names_in_inner_scopes_do_not_leak() {
    assert!(matches!(run_err("if true { var only = 1; } only;"),
        RuntimeError::UndefinedVariable(_)));
}

#[test]
fn wrong_arity_fails() {
    let e = run_err("fn f(a, b) { return a; } f(1);");
    match e {
        RuntimeError::ArityMismatch { expected, got } => {
            assert_eq!(expected, 2);
            assert_eq!(got, 1);
        },
        _ => panic!("expected an arity error"),
    }
}

#[test]
fn undefined_references_fail() {
    assert!(matches!(run_err("nope(1);"), RuntimeError::UndefinedFunction(_)));
    assert!(matches!(run_err("nope;"), RuntimeError::UndefinedVariable(_)));
}

#[test]
fn condition_must_be_boolean() {
    assert!(matches!(run_err("if 1 { 2; }"), RuntimeError::TypeMismatch));
}

#[test]
fn return_stops_the_call() {
    assert!(matches!(run_ok("fn f() { return 42; 99; } f();"), Type::Int(42)));
    assert!(matches!(run_ok("fn f() { return; } f();"), Type::Null));
}

#[test]
fn call_without_return_yields_last_value() {
    assert!(matches!(run_ok("fn g() { 7; } g();"), Type::Int(7)));
    assert!(matches!(run_ok("fn h(a) { var q = a; } h(3);"), Type::Null));
}

#[test]
fn elif_chain_takes_first_true_branch() {
    let v = run_ok("var r = 0; if false { r = 1; } elif true { r = 2; } else { r = 3; } r;");
    assert!(matches!(v, Type::Int(2)));
    let v = run_ok("var r = 0; if false { r = 1; } elif false { r = 2; } else { r = 3; } r;");
    assert!(matches!(v, Type::Int(3)));
}

#[test]
fn comparisons_bind_looser_than_arithmetic() {
    assert!(matches!(run_ok("1 + 2 == 3;"), Type::Bool(true)));
    assert!(matches!(run_ok("1 + 2 * 3;"), Type::Int(7)));
    assert!(matches!(run_ok("2 * 3 - 1;"), Type::Int(5)));
    assert!(matches!(run_ok("10 - 2 - 3;"), Type::Int(5)));
}

#[test]
fn print_collects_lines_in_order() {
    let out = run_output("print 5; print \"hi\"; print true; print 1.5;");
    assert_eq!(out.len(), 4);
    assert_eq!(out[0], "5");
    assert_eq!(out[1], "hi");
    assert_eq!(out[2], "true");
}

#[test]
fn print_inside_loops_and_calls() {
    let out = run_output("for i in range(3) { print i; }");
    assert_eq!(out, vec!["0", "1", "2"]);
    let out = run_output("fn f(x) { print x; return x; } f(1); f(2);");
    assert_eq!(out, vec!["1", "2"]);
}

#[test]
fn negative_literals() {
    assert!(matches!(run_ok("-3 + 1;"), Type::Int(-2)));
    let v = run_ok("-2.5 + 0.5;");
    assert!(matches!(v, Type::Float(b) if b == (-2.0f64).to_bits()));
}

#[test]
fn null_renders_as_null() {
    let out = run_output("fn f() { return; } print f();");
    assert_eq!(out, vec!["null"]);
}

#[test]
fn syntax_errors_abort_the_parse() {
    let (_out, res) = run_source("var = 5;", FUEL);
    assert!(matches!(res, Err(RunError::Syntax)));
    let (_out, res) = run_source("1 + ;", FUEL);
    assert!(matches!(res, Err(RunError::Syntax)));
    let (_out, res) = run_source("if true { 1;", FUEL);
    assert!(matches!(res, Err(RunError::Syntax)));
    let (_out, res) = run_source("fn f(a,) { return a; }", FUEL);
    assert!(matches!(res, Err(RunError::Syntax)));
}

#[test]
fn value_model_operations() {
    let v = Type::Int(2).add(Type::Int(3)).unwrap();
    assert!(matches!(v, Type::Int(5)));
    let v = Type::Str(String::from("ab")).less_than(Type::Str(String::from("xyz"))).unwrap();
    assert!(matches!(v, Type::Bool(true)));
    assert!(Type::Int(1).add(Type::Bool(true)).is_err());
    assert!(Type::Null.is_null());
    let v = Type::Int(-7).to_text();
    assert_eq!(v, "-7");
    let v = Type::Bool(false).to_text();
    assert_eq!(v, "false");
}

#[test]
fn integer_arithmetic_wraps_at_the_edges() {
    let v = Type::Int(i64::MAX).add(Type::Int(1)).unwrap();
    assert!(matches!(v, Type::Int(i64::MIN)));
    let v = Type::Int(i64::MIN).divide(Type::Int(-1)).unwrap();
    assert!(matches!(v, Type::Int(i64::MIN)));
}

#[test]
fn float_equality_follows_the_double_rules() {
    // negative and positive zero compare equal; a NaN equals nothing
    assert!(matches!(run_ok("0.0 - 0.0 == 0.0;"), Type::Bool(true)));
    let v = Type::Float(f64::NAN.to_bits()).equal(Type::Float(f64::NAN.to_bits())).unwrap();
    assert!(matches!(v, Type::Bool(false)));
    let v = Type::Float((-0.0f64).to_bits()).equal(Type::Float((0.0f64).to_bits())).unwrap();
    assert!(matches!(v, Type::Bool(true)));
}

#[test]
fn braced_subexpressions_parse() {
    assert!(matches!(run_ok("2 * { 1 + 3 };"), Type::Int(8)));
}

#[test]
fn lexer_rejects_stray_characters() {
    let (_out, res) = run_source("1 @ 2;", FUEL);
    assert!(matches!(res, Err(RunError::Syntax)));
}

#[test]
fn float_comparisons_promote() {
    assert!(matches!(run_ok("1 < 1.5;"), Type::Bool(true)));
    assert!(matches!(run_ok("2.5 >= 2;"), Type::Bool(true)));
    assert!(matches!(run_ok("2.0 == 2.0;"), Type::Bool(true)));
}
