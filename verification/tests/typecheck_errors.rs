use dslc::compile;
use dslc::typecheck::collect_mutated_vars;
use dslc::{Expr, Loc, Span};

#[test]
fn rejects_break_outside_loop() {
    let src = "(defn main [] (break))";
    let err = compile(src).expect_err("expected type error");
    assert!(
        err.message.contains("break is only allowed inside loops"),
        "unexpected error: {}",
        err.message
    );
}

#[test]
fn rejects_continue_outside_loop() {
    let src = "(defn main [] (continue))";
    let err = compile(src).expect_err("expected type error");
    assert!(
        err.message.contains("continue is only allowed inside loops"),
        "unexpected error: {}",
        err.message
    );
}

#[test]
fn rejects_shadowing_def_name() {
    let src = "(def val 1) (defn main [val] val)";
    let err = compile(src).expect_err("expected shadowing error");
    assert!(
        err.message.contains("shadows a def name"),
        "unexpected error: {}",
        err.message
    );
}

#[test]
fn rejects_repeated_record_name() {
    let src = "(defrecord point (x i32)) (defrecord point (y i32))";
    let err = compile(src).expect_err("expected duplicate type error");
    assert!(err.message.contains("duplicate struct 'point'"), "unexpected error: {}", err.message);
}

#[test]
fn rejects_stray_break_after_other_functions() {
    let src = "(defn helper [x:i32] x) (defn main [] (break))";
    let err = compile(src).expect_err("expected type error");
    assert!(err.message.contains("break is only allowed inside loops"), "unexpected error: {}", err.message);
}

#[test]
fn macro_function_arity_is_checked() {
    let src = "(defmacro bad [x] (cons x)) (defn f [] (bad 1))";
    let err = compile(src).expect_err("expected macro error");
    assert!(err.message.contains("cons expects 2 arguments"), "unexpected error: {}", err.message);
}

#[test]
fn unknown_macro_function_is_named() {
    let src = "(defmacro bad [x] (frob x)) (defn f [] (bad 1))";
    let err = compile(src).expect_err("expected macro error");
    assert!(err.message.contains("unknown macro function 'frob'"), "unexpected error: {}", err.message);
}

#[test]
fn mutated_names_are_collected_sorted_and_kept() {
    let at = |b: usize| Span { start: Loc { line: 1, col: b + 1, byte: b }, end: Loc { line: 1, col: b + 2, byte: b + 1 } };
    let body = Expr::Do {
        exprs: vec![
            Expr::Assign { name: "x".to_string(), expr: Box::new(Expr::Int(1, at(0))), span: at(0) },
            Expr::Assign { name: "a".to_string(), expr: Box::new(Expr::Int(2, at(2))), span: at(2) },
            Expr::Var("y".to_string(), at(4)),
        ],
        span: at(0),
    };
    let mut out = vec!["m".to_string()];
    collect_mutated_vars(&body, &mut out);
    assert_eq!(out, vec!["a".to_string(), "m".to_string(), "x".to_string()]);
    let mut untouched = vec!["k".to_string()];
    collect_mutated_vars(&Expr::Var("z".to_string(), at(6)), &mut untouched);
    assert_eq!(untouched, vec!["k".to_string()]);
}
