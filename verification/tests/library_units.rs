use std::sync::Arc;

use dslc::infer::{named, InferCtx, InferTy};
use dslc::darcy_build::{is_dsl_file, is_skipped_dir, parent_dir, rerun_line, strip_inner_attrs, text_lines, warning_lines, Builder};
use dslc::feedback::{
    collect_bounds_from_text, merge_feedback_hints, parse_bound_string, parse_diagnostics, parse_missing_impl,
    parse_restricting_type_param, parse_trait_bound, CargoLine, CompilerMessage,
};
use dslc::lsp::{base_symbol, find_definition, format_simple, pos_to_byte, span_contains, span_to_range, token_at_position};
use dslc::manifest_edit::{crate_name_from_toml, darcy_dep_spec, main_rs_text, update_cargo_toml};
use dslc::rt;
use dslc::specialize::{fnv1a_64, hex_string};
use dslc::type_aliases::resolve_type_alias;
use dslc::typed::GenericBound;
use dslc::{analyze, lex, parse_toplevel, Diag, FeedbackHints, Loc, Parser, Span, TokKind};

fn chars(s: &str) -> Vec<char> {
    s.chars().collect()
}

fn span(l1: usize, c1: usize, l2: usize, c2: usize) -> Span {
    Span { start: Loc { line: l1, col: c1, byte: 0 }, end: Loc { line: l2, col: c2, byte: 0 } }
}

// ----- runtime support

#[test]
fn rt_trim_split_join() {
    assert_eq!(rt::string_trim(&"  a b \n".to_string()), "a b");
    assert_eq!(rt::string_trim(&"   ".to_string()), "");
    let parts = rt::string_split(&"a,b,,c".to_string(), &",".to_string());
    assert_eq!(*parts, vec!["a".to_string(), "b".to_string(), "".to_string(), "c".to_string()]);
    assert_eq!(rt::string_join(parts, &",".to_string()), "a,b,,c");
    let chars_split = rt::string_split(&"abc".to_string(), &"".to_string());
    assert_eq!(rt::string_join(chars_split, &"".to_string()), "abc");
    assert_eq!(rt::string_len(&"héllo".to_string()), 6);
    assert!(rt::string_is_empty(&String::new()));
}

#[test]
fn rt_trim_is_idempotent_on_example() {
    let once = rt::string_trim(&"\t x y \t".to_string());
    assert_eq!(rt::string_trim(&once), once);
}

#[test]
fn rt_vec_operations() {
    let v = rt::vec_range(4);
    assert_eq!(*v, vec![0, 1, 2, 3]);
    assert_eq!(rt::vec_len(&v), 4);
    assert_eq!(rt::vec_get(&v, 2), 2);
    let w = rt::vec_set(v.clone(), 1, 10);
    assert_eq!(*w, vec![0, 10, 2, 3]);
    assert_eq!(*v, vec![0, 1, 2, 3]);
    let unique = rt::vec_set(rt::vec_repeat(7u8, 2), 0, 1);
    assert_eq!(*unique, vec![1, 7]);
    let p = rt::vec_push(rt::vec_new(), 5i32);
    assert_eq!(*p, vec![5]);
    assert_eq!(*rt::vec_take(rt::vec_range(5), 2), vec![0, 1]);
    assert_eq!(*rt::vec_take(rt::vec_range(2), 9), vec![0, 1]);
    assert_eq!(*rt::vec_map(|x: usize| x * 2, rt::vec_range(3)), vec![0, 2, 4]);
    assert_eq!(*rt::vec_map2(|a: usize, b: usize| a + b, rt::vec_range(3), rt::vec_range(2)), vec![0, 2]);
    assert_eq!(rt::vec_fold(|acc: usize, x: usize| acc + x, 0, rt::vec_range(5)), 10);
}

#[test]
fn rt_math_and_options() {
    assert_eq!(rt::math_min(3, 7), 3);
    assert_eq!(rt::math_max(3, 7), 7);
    assert_eq!(rt::math_clamp(12, 0, 10), 10);
    assert_eq!(rt::math_clamp(-2, 0, 10), 0);
    assert_eq!(rt::math_abs(-5i32), 5);
    assert!(rt::math_gt(2, 1) && rt::math_lt(1, 2) && rt::math_eq(4, 4));
    assert_eq!(rt::option_unwrap_or(rt::option_none::<i32>(), 9), 9);
    assert_eq!(rt::option_unwrap(rt::option_some(4)), 4);
    assert!(rt::option_is_some(Some(1)) && rt::option_is_none::<u8>(None));
    assert!(rt::result_is_ok(rt::result_ok::<i32, ()>(1)));
    assert!(rt::result_is_err(rt::result_err::<i32, u8>(1)));
    assert_eq!(rt::result_unwrap_or(rt::result_err::<i32, u8>(1), 3), 3);
    assert_eq!(rt::result_unwrap(rt::result_ok::<i32, u8>(8)), 8);
    assert_eq!(rt::from_int::<u8>(200), 200u8);
    assert_eq!(rt::cast_usize(3u8), 3usize);
    assert_eq!(rt::core_clone(&vec![1, 2]), vec![1, 2]);
}

#[test]
fn rt_debug_renderings() {
    assert_eq!(rt::fmt_format(vec![1, 2]), "[1, 2]");
    assert_eq!(rt::fmt_format("hi"), "\"hi\"");
    assert_eq!(rt::fmt_pretty(vec![1]), "[\n    1,\n]");
}

// ----- type aliases

#[test]
fn aliases_resolve_and_are_idempotent() {
    assert_eq!(resolve_type_alias("int"), "i64");
    assert_eq!(resolve_type_alias("uint"), "u64");
    assert_eq!(resolve_type_alias("float"), "f64");
    assert_eq!(resolve_type_alias("i32"), "i32");
    let once = resolve_type_alias("int");
    assert_eq!(resolve_type_alias(once), once);
}

// ----- feedback from compiler messages

#[test]
fn feedback_reads_bound_messages() {
    assert!(matches!(parse_bound_string(&chars("T3: Clone")), Some((3, GenericBound::Clone))));
    assert!(matches!(parse_bound_string(&chars(" T12 : std::ops::Add<Output = T12>")), Some((12, GenericBound::Add))));
    assert!(parse_bound_string(&chars("U3: Clone")).is_none());
    assert!(matches!(
        parse_trait_bound(&chars("the trait bound `T0: Copy` is not satisfied")),
        Some((0, GenericBound::Copy))
    ));
    assert!(parse_trait_bound(&chars("no bound here")).is_none());
    assert!(matches!(
        parse_restricting_type_param(&chars("consider restricting type parameter `T5` with trait `Debug`")),
        Some((5, GenericBound::Debug))
    ));
    assert!(matches!(
        parse_missing_impl(&chars("`T7` doesn't implement `std::fmt::Debug`")),
        Some((7, GenericBound::Debug))
    ));
    assert!(parse_missing_impl(&chars("`T7` does implement `Debug`")).is_none());
}

#[test]
fn feedback_collects_from_message_trees() {
    let child = CompilerMessage {
        message: Some("consider restricting type parameter `T2` with trait `Debug`".to_string()),
        children: vec![],
    };
    let top = CompilerMessage { message: Some("the trait bound `T1: Clone` is not satisfied".to_string()), children: vec![child] };
    let lines = vec![
        CargoLine { reason: Some("compiler-artifact".to_string()), message: None },
        CargoLine { reason: Some("compiler-message".to_string()), message: Some(top) },
        CargoLine {
            reason: Some("build-finished".to_string()),
            message: Some(CompilerMessage { message: Some("the trait bound `T9: Copy` is not satisfied".to_string()), children: vec![] }),
        },
    ];
    let mut hints = FeedbackHints::default();
    parse_diagnostics(&lines, &mut hints);
    let ids: Vec<u32> = hints.bounds.iter().map(|(id, _)| *id).collect();
    assert_eq!(ids, vec![1, 2]);
    assert!(matches!(hints.bounds[0].1[..], [GenericBound::Clone]));
    assert!(matches!(hints.bounds[1].1[..], [GenericBound::Debug]));
}

#[test]
fn feedback_merge_keeps_both_sides_once() {
    let mut a = Vec::new();
    collect_bounds_from_text("the trait bound `T1: Clone` is not satisfied", &mut a);
    let mut b = Vec::new();
    collect_bounds_from_text("the trait bound `T1: Clone` is not satisfied", &mut b);
    collect_bounds_from_text("the trait bound `T4: PartialEq` is not satisfied", &mut b);
    let merged = merge_feedback_hints(FeedbackHints { bounds: a }, FeedbackHints { bounds: b });
    assert_eq!(merged.bounds.len(), 2);
    assert_eq!(merged.bounds[0].1.len(), 1);
    assert!(matches!(merged.bounds[1], (4, ref v) if matches!(v[..], [GenericBound::PartialEq])));
}

// ----- cargo manifests

#[test]
fn manifest_gets_feature_and_dependencies() {
    let toml = "[package]\nname = \"my-app\"\nversion = \"0.1.0\"\n\n[dependencies]\n";
    let out = update_cargo_toml(toml, None);
    assert!(out.contains("[features]\ndarcy-compiled = []\ndefault = [\"darcy-compiled\"]\n"), "{}", out);
    assert!(out.contains("[build-dependencies]\ndarcy-build = \"0.1.0\"\ndarcy-stdlib = \"0.1.0\"\n"), "{}", out);
    assert!(out.contains("[dependencies]\n\ndarcy-stdlib = \"0.1.0\"\n") || out.contains("[dependencies]\ndarcy-stdlib = \"0.1.0\"\n"), "{}", out);
    assert_eq!(update_cargo_toml(&out, None), out);
}

#[test]
fn manifest_with_sdk_points_at_paths() {
    assert_eq!(darcy_dep_spec(Some("/sdk"), "darcy-build"), "{ path = \"/sdk/crates/darcy-build\" }");
    assert_eq!(darcy_dep_spec(None, "darcy-build"), "\"0.1.0\"");
    let out = update_cargo_toml("[package]\nname = \"x\"\n", Some("/sdk"));
    assert!(out.contains("darcy-build = { path = \"/sdk/crates/darcy-build\" }"), "{}", out);
}

#[test]
fn manifest_crate_name_and_main() {
    assert_eq!(crate_name_from_toml("[package]\nname = \"my-app\"\n"), Some("my_app".to_string()));
    assert_eq!(crate_name_from_toml("[dependencies]\nname = \"x\"\n"), None);
    assert_eq!(crate_name_from_toml("[package]\nname = \"\"\n"), None);
    assert_eq!(
        main_rs_text("my_app"),
        "fn main() {\n    let answer = my_app::answer();\n    println!(\"answer = {}\", answer);\n}\n"
    );
}

// ----- builds

#[test]
fn builder_search_paths() {
    let b = Builder::new("proj/darcy/main.dsl".to_string());
    assert_eq!(b.search_paths(), vec!["proj/darcy".to_string()]);
    let b = Builder::new("main.dsl".to_string());
    assert!(b.search_paths().is_empty() || b.search_paths() == vec!["".to_string()]);
    let b = Builder::new("e.dsl".to_string()).lib_path("lib".to_string()).stdlib_path("std".to_string());
    assert_eq!(b.search_paths(), vec!["lib".to_string(), "std".to_string()]);
    let b = Builder::new("e.dsl".to_string()).out_file("o.rs".to_string()).emit_rerun_if_changed(false);
    assert_eq!(b.out_file, Some("o.rs".to_string()));
    assert!(!b.emit_rerun);
}

#[test]
fn build_text_helpers() {
    assert_eq!(strip_inner_attrs("#![allow(x)]\nfn a() {}\n  #![deny(y)]\nlet b;"), "fn a() {}\nlet b;\n");
    assert_eq!(parent_dir(&chars("a/b/c.dsl")), Some("a/b".to_string()));
    assert_eq!(parent_dir(&chars("/c.dsl")), Some("/".to_string()));
    assert_eq!(text_lines("a\r\nb\n\nc"), vec!["a".to_string(), "b".to_string(), "".to_string(), "c".to_string()]);
    assert!(is_dsl_file("main.dsl") && !is_dsl_file(".dsl") && !is_dsl_file("main.rs"));
    assert!(is_skipped_dir(".git") && is_skipped_dir("target") && !is_skipped_dir("src"));
    assert_eq!(rerun_line("a.dsl"), "cargo:rerun-if-changed=a.dsl");
    let w = Diag::new("unused");
    let lines = warning_lines("f.dsl", "(x)\n", &vec![w]);
    assert!(!lines.is_empty());
    assert!(lines.iter().all(|l| l.starts_with("cargo:warning=")));
    assert!(lines[0].contains("warning"), "{:?}", lines);
}

// ----- editor support

#[test]
fn lsp_positions_and_tokens() {
    let sp = span(1, 3, 1, 6);
    assert!(span_contains(&sp, 1, 3) && span_contains(&sp, 1, 5));
    assert!(!span_contains(&sp, 1, 6) && !span_contains(&sp, 2, 1) && !span_contains(&sp, 1, 2));
    assert_eq!(span_to_range(&span(1, 1, 3, 4)), ((0, 0), (2, 3)));
    assert_eq!(span_to_range(&span(0, 0, 0, 0)), ((0, 0), (0, 0)));
    assert_eq!(pos_to_byte("ab\ncd", 1, 1), Some(4));
    assert_eq!(pos_to_byte("ab\ncd", 0, 2), Some(2));
    assert_eq!(pos_to_byte("ab\ncd", 1, 2), Some(5));
    assert_eq!(pos_to_byte("ab\ncd", 2, 0), None);
    assert_eq!(pos_to_byte("é\nx", 1, 0), Some(3));
    let toks = lex("(defn inc [x] x)").unwrap();
    let t = token_at_position(&toks, 0, 2).expect("token");
    assert!(matches!(t.kind, TokKind::Sym(ref s) if s == "defn"));
    assert!(token_at_position(&toks, 3, 0).is_none());
}

#[test]
fn lsp_definitions_and_formatting() {
    assert_eq!(base_symbol("math/inc"), "inc");
    assert_eq!(base_symbol("a/b/c"), "c");
    assert_eq!(base_symbol("plain"), "plain");
    let mut p = Parser::new(lex("(defn inc [x:i32] x)\n(defrecord pt (x i32))").unwrap());
    let tops = parse_toplevel(&p.parse_all().unwrap()).unwrap();
    let sp = find_definition(&tops, "inc").expect("defined");
    assert_eq!(sp.start.line, 1);
    assert!(find_definition(&tops, "pt").is_some());
    assert!(find_definition(&tops, "nope").is_none());
    assert_eq!(format_simple("a  \nb\t\n"), "a\nb\n");
    assert_eq!(format_simple(""), "");
    let once = format_simple("x  \n  y ");
    assert_eq!(format_simple(&once), once);
}

#[test]
fn lsp_hover_type_of_expression() {
    let program = analyze("(defn main [] (+ 1 2))").unwrap();
    let ty = dslc::lsp::find_type_at_offset(&program.typechecked, 16).expect("a type");
    assert_eq!(ty.rust(), "i64");
}

// ----- specialisation names

#[test]
fn fnv_and_hex() {
    assert_eq!(fnv1a_64(""), 0xcbf29ce484222325);
    assert_eq!(fnv1a_64("a"), 0xaf63dc4c8601ec8c);
    assert_eq!(hex_string(0), "0");
    assert_eq!(hex_string(255), "ff");
    assert_eq!(hex_string(0xdeadbeef), "deadbeef");
}

#[test]
fn arc_shared_and_unique_both_set() {
    let shared = Arc::new(vec![1, 2, 3]);
    let keep = shared.clone();
    let out = rt::vec_set(shared, 2, 9);
    assert_eq!(*out, vec![1, 2, 9]);
    assert_eq!(*keep, vec![1, 2, 3]);
}

// ----- checking one function

fn one_fn(src: &str) -> dslc::FnDef {
    let mut p = Parser::new(lex(src).unwrap());
    match parse_toplevel(&p.parse_all().unwrap()).unwrap().remove(0) {
        dslc::Top::Func(fd) => fd,
        _ => panic!("not a function"),
    }
}

#[test]
fn typecheck_single_function() {
    let f = one_fn("(defn inc [x:i32] (+ x 1))");
    let t = dslc::typecheck_fn(&dslc::TypeEnv::new(), &dslc::FnEnv::new(), &vec![], &vec![], &f).expect("checks");
    assert_eq!(t.param_tys.len(), 1);
    assert_eq!(t.param_tys[0].1.rust(), "i32");
    assert_eq!(t.body.ty.rust(), "i32");
    assert_eq!(t.param_modes.len(), 1);
}

#[test]
fn typecheck_single_function_rejects_shadowed_def() {
    let f = one_fn("(defn main [val] val)");
    let err = dslc::typecheck_fn(&dslc::TypeEnv::new(), &dslc::FnEnv::new(), &vec![], &vec!["val".to_string()], &f)
        .expect_err("shadowing");
    assert!(err.message.contains("shadows a def name"), "{}", err.message);
}

#[test]
fn feature_section_declared_once() {
    let once = update_cargo_toml("[package]\nname = \"a\"\n[features]\nx = []\n", None);
    assert_eq!(once.matches("darcy-compiled = []").count(), 1);
    let twice = update_cargo_toml(&once, None);
    assert_eq!(twice.matches("darcy-compiled = []").count(), 1);
}

// ----- unification

#[test]
fn unify_binds_variables_and_reports_mismatch() {
    let sp = span(1, 1, 1, 2);
    let mut ctx = InferCtx::new();
    let v = ctx.fresh_var().unwrap();
    ctx.unify(&v, &named("i32"), sp).unwrap();
    assert!(matches!(ctx.resolve(&v), InferTy::Named(ref n) if n == "i32"));
    let w = ctx.fresh_var().unwrap();
    ctx.unify(&InferTy::Vec(Box::new(w.clone())), &InferTy::Vec(Box::new(v.clone())), sp).unwrap();
    assert!(matches!(ctx.resolve(&w), InferTy::Named(ref n) if n == "i32"));
    let err = ctx.unify(&v, &named("i64"), sp).unwrap_err();
    assert_eq!(err.message, "type mismatch: 'i32' vs 'i64'");
    let z = ctx.fresh_var().unwrap();
    let err = ctx.unify(&z, &InferTy::Vec(Box::new(z.clone())), sp).unwrap_err();
    assert!(err.message.contains("recursive type"), "{}", err.message);
    let err = ctx.unify(&InferTy::Vec(Box::new(named("i32"))), &named("i32"), sp).unwrap_err();
    assert_eq!(err.message, "type mismatch: vector vs scalar");
}

#[test]
fn unify_chains_through_variables() {
    let sp = span(1, 1, 1, 2);
    let mut ctx = InferCtx::new();
    let a = ctx.fresh_var().unwrap();
    let b = ctx.fresh_var().unwrap();
    ctx.unify(&a, &b, sp).unwrap();
    ctx.unify(&b, &named("bool"), sp).unwrap();
    assert!(matches!(ctx.resolve(&a), InferTy::Named(ref n) if n == "bool"));
    let f1 = InferTy::Fn(vec![a.clone()], Box::new(named("i64")));
    let c = ctx.fresh_var().unwrap();
    let f2 = InferTy::Fn(vec![c.clone()], Box::new(named("i64")));
    ctx.unify(&f1, &f2, sp).unwrap();
    assert!(matches!(ctx.resolve(&c), InferTy::Named(ref n) if n == "bool"));
}

#[test]
fn unify_same_named_types_succeeds_without_binding() {
    let sp = span(1, 1, 1, 2);
    let mut ctx = InferCtx::new();
    ctx.unify(&named("bool"), &named("bool"), sp).unwrap();
    let v = ctx.fresh_var().unwrap();
    assert!(matches!(ctx.resolve(&v), InferTy::Var(_)));
    let err = ctx.unify(&named("bool"), &named("u8"), sp).unwrap_err();
    assert_eq!(err.message, "type mismatch: 'bool' vs 'u8'");
}
