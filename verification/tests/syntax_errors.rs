use dslc::compile;

#[test]
fn rejects_empty_list_expression() {
    let src = "(defn main [] ())";
    let err = compile(src).expect_err(src);
    assert!(err.message.contains("empty list is not a valid expression"), "{}", err.message);
}

#[test]
fn rejects_empty_top_level_list() {
    let src = "()";
    let err = compile(src).expect_err(src);
    assert!(err.message.contains("empty top-level list"), "{}", err.message);
}

#[test]
fn rejects_top_level_atom() {
    let src = "42";
    let err = compile(src).expect_err(src);
    assert!(err.message.contains("top-level forms must be lists"), "{}", err.message);
}

#[test]
fn rejects_top_level_number_head() {
    let src = "(42)";
    let err = compile(src).expect_err(src);
    assert!(err.message.contains("top-level head must be a symbol"), "{}", err.message);
}

#[test]
fn rejects_bare_defn() {
    let src = "(defn)";
    let err = compile(src).expect_err(src);
    assert!(err.message.contains("defn form is (defn name [params] expr ...)"), "{}", err.message);
}

#[test]
fn rejects_bare_def() {
    let src = "(def)";
    let err = compile(src).expect_err(src);
    assert!(err.message.contains("def form is (def name expr)"), "{}", err.message);
}

#[test]
fn rejects_if_without_branches() {
    let src = "(defn main [] (if))";
    let err = compile(src).expect_err(src);
    assert!(err.message.contains("if form is (if cond then [else])"), "{}", err.message);
}

#[test]
fn rejects_let_odd_bindings() {
    let src = "(defn main [] (let [x] x))";
    let err = compile(src).expect_err(src);
    assert!(err.message.contains("let bindings must be name/expr pairs"), "{}", err.message);
}

#[test]
fn rejects_let_without_vector() {
    let src = "(defn main [] (let x 1))";
    let err = compile(src).expect_err(src);
    assert!(err.message.contains("let form is (let [bindings] expr ...)"), "{}", err.message);
}

#[test]
fn rejects_while_without_body() {
    let src = "(defn main [] (while))";
    let err = compile(src).expect_err(src);
    assert!(err.message.contains("while form is (while cond expr ...)"), "{}", err.message);
}

#[test]
fn rejects_loop_without_body() {
    let src = "(defn main [] (loop))";
    let err = compile(src).expect_err(src);
    assert!(err.message.contains("loop form is (loop expr ...)"), "{}", err.message);
}

#[test]
fn rejects_for_number_binding() {
    let src = "(defn main [] (for 1 (range 0 3) 1))";
    let err = compile(src).expect_err(src);
    assert!(err.message.contains("for binding must be a symbol"), "{}", err.message);
}

#[test]
fn rejects_fn_without_body() {
    let src = "(defn main [] (fn [x]))";
    let err = compile(src).expect_err(src);
    assert!(err.message.contains("fn form is (fn [params] expr ...)"), "{}", err.message);
}

#[test]
fn rejects_fn_with_bad_params() {
    let src = "(defn main [] (fn x 1))";
    let err = compile(src).expect_err(src);
    assert!(err.message.contains("expected parameter list in [..]"), "{}", err.message);
}

#[test]
fn rejects_call_without_function() {
    let src = "(defn main [] (call))";
    let err = compile(src).expect_err(src);
    assert!(err.message.contains("call form is (call f arg ...)"), "{}", err.message);
}

#[test]
fn rejects_break_two_values() {
    let src = "(defn main [] (loop (break 1 2)))";
    let err = compile(src).expect_err(src);
    assert!(err.message.contains("break form is (break [expr])"), "{}", err.message);
}

#[test]
fn rejects_continue_with_value() {
    let src = "(defn main [] (loop (continue 1)))";
    let err = compile(src).expect_err(src);
    assert!(err.message.contains("continue form is (continue)"), "{}", err.message);
}

#[test]
fn rejects_set_number_target() {
    let src = "(defn main [] (let! 1 2))";
    let err = compile(src).expect_err(src);
    assert!(err.message.contains("let! binding must be a symbol"), "{}", err.message);
}

#[test]
fn rejects_set_without_value() {
    let src = "(defn main [] (let! x))";
    let err = compile(src).expect_err(src);
    assert!(err.message.contains("let! form is (let! name expr)"), "{}", err.message);
}

#[test]
fn rejects_cond_without_clauses() {
    let src = "(defn main [] (cond))";
    let err = compile(src).expect_err(src);
    assert!(err.message.contains("cond form is (cond (test expr) ...)"), "{}", err.message);
}

#[test]
fn rejects_cond_atom_clause() {
    let src = "(defn main [] (cond 1))";
    let err = compile(src).expect_err(src);
    assert!(err.message.contains("cond clause must be a list"), "{}", err.message);
}

#[test]
fn rejects_when_without_body() {
    let src = "(defn main [] (when))";
    let err = compile(src).expect_err(src);
    assert!(err.message.contains("when form is (when cond expr ...)"), "{}", err.message);
}

#[test]
fn rejects_case_without_arms() {
    let src = "(defn main [] (case))";
    let err = compile(src).expect_err(src);
    assert!(err.message.contains("case form is (case expr (Variant (...) expr) ...)"), "{}", err.message);
}

#[test]
fn rejects_case_atom_arm() {
    let src = "(defn main [x:i32] (case x 1))";
    let err = compile(src).expect_err(src);
    assert!(err.message.contains("case arm must be a list"), "{}", err.message);
}

#[test]
fn rejects_odd_map_literal() {
    let src = "(defn main [] {:a})";
    let err = compile(src).expect_err(src);
    assert!(err.message.contains("map literal requires even number of forms"), "{}", err.message);
}

#[test]
fn rejects_short_interop() {
    let src = "(defn main [x:i32] (. x))";
    let err = compile(src).expect_err(src);
    assert!(err.message.contains("interop form is (. obj member [args...])"), "{}", err.message);
}

#[test]
fn rejects_qualified_variable() {
    let src = "(defn main [] a/b)";
    let err = compile(src).expect_err(src);
    assert!(err.message.contains("qualified name is only allowed in call heads"), "{}", err.message);
}

#[test]
fn rejects_ascription_in_expression() {
    let src = "(defn main [x:i32] x:i32)";
    let err = compile(src).expect_err(src);
    assert!(err.message.contains("a type ascription in an expression is written (type expr Type)"), "{}", err.message);
}

#[test]
fn rejects_slash_ended_symbol_literal() {
    let src = "(defn main [] :a/)";
    let err = compile(src).expect_err(src);
    assert!(err.message.contains("malformed symbol literal"), "{}", err.message);
}

#[test]
fn rejects_require_symbol_spec() {
    let src = "(require math)";
    let err = compile(src).expect_err(src);
    assert!(err.message.contains("require specs must be vectors like [path :as name]"), "{}", err.message);
}

#[test]
fn rejects_require_unknown_modifier() {
    let src = "(require [math :bogus])";
    let err = compile(src).expect_err(src);
    assert!(err.message.contains("unknown require modifier"), "{}", err.message);
}

#[test]
fn rejects_require_alias_missing() {
    let src = "(require [math :as])";
    let err = compile(src).expect_err(src);
    assert!(err.message.contains("require :as must be followed by a symbol"), "{}", err.message);
}

#[test]
fn rejects_require_refer_number() {
    let src = "(require [math :refer 1])";
    let err = compile(src).expect_err(src);
    assert!(err.message.contains("require :refer must be followed by a list or :all"), "{}", err.message);
}

#[test]
fn rejects_nameless_defrecord() {
    let src = "(defrecord)";
    let err = compile(src).expect_err(src);
    assert!(err.message.contains("defrecord requires a name"), "{}", err.message);
}

#[test]
fn rejects_nameless_defenum() {
    let src = "(defenum)";
    let err = compile(src).expect_err(src);
    assert!(err.message.contains("defenum requires a name"), "{}", err.message);
}

#[test]
fn rejects_number_parameter() {
    let src = "(defn main [1] 1)";
    let err = compile(src).expect_err(src);
    assert!(err.message.contains("parameter must be a symbol like o:Order"), "{}", err.message);
}

#[test]
fn rejects_with_meta_one_arg() {
    let src = "(defn main [] (with-meta 1))";
    let err = compile(src).expect_err(src);
    assert!(err.message.contains("with-meta form is (with-meta form meta)"), "{}", err.message);
}

#[test]
fn rejects_unknown_top_level_form() {
    let src = "(frobnicate 1)";
    let err = compile(src).expect_err(src);
    assert!(err.message.contains("unknown top-level form 'frobnicate'"), "{}", err.message);
}

#[test]
fn rejects_wildcard_arm_two_bodies() {
    let src = "(defenum e (a)) (defn main [x:e] (case x (_ 1 2)))";
    let err = compile(src).expect_err(src);
    assert!(err.message.contains("wildcard case arm is (_ expr)"), "{}", err.message);
}

#[test]
fn rejects_inline_call_with_wrong_arity() {
    let src = "(defin inc [x] (+ x 1)) (defn main [y:i32] (inc y y))";
    let err = compile(src).expect_err(src);
    assert!(err.message.contains("inline 'inc' expects 1 arguments"), "{}", err.message);
}

#[test]
fn rejects_continue_with_argument() {
    let src = "(defn main [] (loop (continue 1)))";
    let err = compile(src).expect_err(src);
    assert!(err.message.contains("continue form is (continue)"), "{}", err.message);
}
