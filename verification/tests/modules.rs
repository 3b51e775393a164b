use dslc::{compile_with_modules, Expr, ModuleLoader, ModuleRequest, Top};
use dslc::modules::{module_name_from_import, module_name_from_path, normalize_module_prefix, qualify, split_qualified};

fn load(src: &str, libs: &[(&str, &str)]) -> ModuleLoader {
    let mut loader = ModuleLoader::new("proj/main.dsl", src, vec!["lib".to_string()]).expect("root parses");
    loop {
        match loader.next_request().expect("requires are well formed") {
            None => break,
            Some(req) => {
                let text = libs
                    .iter()
                    .find(|(name, _)| *name == req.import.as_str())
                    .map(|(_, t)| *t)
                    .expect("module is available");
                loader.provide(&req, text).expect("module parses");
            }
        }
    }
    loader
}

fn func_names(tops: &[Top]) -> Vec<String> {
    tops.iter()
        .filter_map(|t| match t {
            Top::Func(fd) => Some(fd.name.clone()),
            _ => None,
        })
        .collect()
}

fn body_of<'a>(tops: &'a [Top], name: &str) -> &'a Expr {
    tops.iter()
        .find_map(|t| match t {
            Top::Func(fd) if fd.name == name => Some(&fd.body),
            _ => None,
        })
        .expect("function present")
}

#[test]
fn alias_prefix_call_resolves_to_module() {
    let loader = load("(require [math :as m]) (defn main [] (m/inc 1))", &[("math", "(defn inc [x:i32] (+ x 1))")]);
    let out = compile_with_modules(&loader).expect("compile ok");
    let names = func_names(&out.program.tops);
    assert_eq!(names, vec!["math/inc".to_string(), "main/main".to_string()]);
    match body_of(&out.program.tops, "main/main") {
        Expr::Call { op, .. } => assert_eq!(op, "math/inc"),
        other => panic!("unexpected body {:?}", other),
    }
}

#[test]
fn refer_all_brings_every_name() {
    let loader = load("(require [math :refer :all]) (defn main [] (inc 1))", &[("math", "(defn inc [x:i32] (+ x 1))")]);
    let out = compile_with_modules(&loader).expect("compile ok");
    match body_of(&out.program.tops, "main/main") {
        Expr::Call { op, .. } => assert_eq!(op, "math/inc"),
        other => panic!("unexpected body {:?}", other),
    }
}

#[test]
fn refer_list_brings_listed_names() {
    let loader = load("(require [math :refer [inc]]) (defn main [] (inc 1))", &[("math", "(defn inc [x:i32] (+ x 1))")]);
    let out = compile_with_modules(&loader).expect("compile ok");
    assert!(func_names(&out.program.tops).contains(&"main/main".to_string()));
}

#[test]
fn refer_list_rejects_other_names() {
    let loader = load("(require [math :refer [inc]]) (defn main [] (dec 1))", &[("math", "(defn inc [x:i32] (+ x 1))")]);
    let err = compile_with_modules(&loader).expect_err("expected error");
    assert!(err.message.contains("unresolved name 'dec'"), "{}", err.message);
}

#[test]
fn dotted_module_path_prefix() {
    let loader = load("(require [acme.io]) (defn main [] (acme.io/echo 1))", &[("acme.io", "(defn echo [x:i32] x)")]);
    let out = compile_with_modules(&loader).expect("compile ok");
    assert!(func_names(&out.program.tops).contains(&"acme.io/echo".to_string()));
}

#[test]
fn builtin_module_needs_no_file() {
    let mut loader = ModuleLoader::new("main.dsl", "(require [darcy.io]) (defn main [] (darcy.io/dbg 1))", vec![]).unwrap();
    assert!(loader.next_request().unwrap().is_none());
    let out = compile_with_modules(&loader).expect("compile ok");
    match body_of(&out.program.tops, "main/main") {
        Expr::Call { op, .. } => assert_eq!(op, "darcy.io/dbg"),
        other => panic!("unexpected body {:?}", other),
    }
}

#[test]
fn two_requires_each_resolved() {
    let loader = load(
        "(require [math :as m] [util :as u]) (defn main [] (+ (m/inc 1) (u/dec 2)))",
        &[("math", "(defn inc [x:i32] (+ x 1))"), ("util", "(defn dec [x:i32] (- x 1))")],
    );
    let out = compile_with_modules(&loader).expect("compile ok");
    let names = func_names(&out.program.tops);
    assert!(names.contains(&"math/inc".to_string()));
    assert!(names.contains(&"util/dec".to_string()));
}

#[test]
fn auto_symbol_takes_current_module() {
    let loader = load("(defn main [] ::a)", &[]);
    let out = compile_with_modules(&loader).expect("compile ok");
    match body_of(&out.program.tops, "main/main") {
        Expr::SymbolLit(s, _) => assert_eq!(s, ":main/a"),
        other => panic!("unexpected body {:?}", other),
    }
}

#[test]
fn auto_symbol_takes_alias_module() {
    let loader = load("(require [math :as m]) (defn main [] ::m/a)", &[("math", "(defn inc [x:i32] (+ x 1))")]);
    let out = compile_with_modules(&loader).expect("compile ok");
    match body_of(&out.program.tops, "main/main") {
        Expr::SymbolLit(s, _) => assert_eq!(s, ":math/a"),
        other => panic!("unexpected body {:?}", other),
    }
}

#[test]
fn auto_symbol_unknown_alias_is_an_error() {
    let loader = load("(defn main [] ::missing/a)", &[]);
    let err = compile_with_modules(&loader).expect_err("expected error");
    assert!(err.message.contains("unknown module 'missing'"), "{}", err.message);
}

#[test]
fn request_names_the_module_and_its_files() {
    let mut loader = ModuleLoader::new("main.dsl", "(require [acme.io])", vec!["lib".to_string(), "vendor/".to_string()]).unwrap();
    let req = loader.next_request().unwrap().expect("a request");
    assert_eq!(req.import, "acme.io");
    assert_eq!(req.module, "acme.io");
    assert_eq!(loader.candidate_paths(&req), vec!["lib/acme/io.dsl".to_string(), "vendor/acme/io.dsl".to_string()]);
}

#[test]
fn invalid_require_path_is_an_error() {
    let mut loader = ModuleLoader::new("main.dsl", "(require [Math])", vec![]);
    match &mut loader {
        Ok(l) => {
            let err = l.next_request().expect_err("bad path");
            assert!(err.message.contains("module path must be lowercase"), "{}", err.message);
        }
        Err(e) => assert!(e.message.contains("require"), "{}", e.message),
    }
}

#[test]
fn root_module_named_by_file_stem() {
    assert_eq!(module_name_from_path("src/app.dsl").unwrap(), "app");
    assert_eq!(module_name_from_path("a/b.c.dsl").unwrap(), "b.c");
    assert_eq!(module_name_from_path(".hidden").unwrap(), ".hidden");
    assert_eq!(module_name_from_path("dir/").unwrap(), "dir");
    assert_eq!(module_name_from_path("a/./").unwrap(), "a");
    assert!(module_name_from_path("..").is_err());
    assert!(module_name_from_path("/").is_err());
    assert_eq!(module_name_from_path("").unwrap_err().message, "invalid module path");
}

#[test]
fn import_path_checks() {
    assert_eq!(module_name_from_import("acme.io").unwrap(), "acme.io");
    assert_eq!(module_name_from_import("").unwrap_err().message, "empty module path");
    assert!(module_name_from_import("Acme").unwrap_err().message.starts_with("module path must be lowercase"));
    assert!(module_name_from_import("acme..io").is_err());
}

#[test]
fn qualify_then_split_roundtrip() {
    let q = qualify("acme.io", "echo");
    assert_eq!(q, "acme.io/echo");
    assert_eq!(split_qualified(&q), Some(("acme.io".to_string(), "echo".to_string())));
    assert_eq!(split_qualified("a/b/c"), Some(("a/b".to_string(), "c".to_string())));
    assert_eq!(split_qualified("plain"), None);
    assert_eq!(normalize_module_prefix("acme/io"), "acme.io");
}

#[test]
fn missing_module_and_read_messages() {
    let d = dslc::modules::module_not_found("acme.io");
    assert_eq!(d.message, "module not found: acme.io");
    let d = dslc::modules::cannot_read_module("acme.io", "denied");
    assert_eq!(d.message, "cannot read module acme.io: denied");
    let _ = ModuleRequest { import: String::new(), module: String::new() };
}
