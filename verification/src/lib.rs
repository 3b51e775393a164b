//! A compiler front end for a small Lisp-syntax language that targets Rust:
//! lexing, reading, macro expansion, parsing to an AST and type checking,
//! with diagnostics that point into the source.

pub mod text;
pub mod diag;
pub mod type_aliases;
pub mod lexer;
pub mod parser;
pub mod datum;
pub mod reader;
pub mod macro_expand;
pub mod ast;
pub mod rt;
pub mod typed;
pub mod typecheck;
pub mod syntax;
pub mod infer;
pub mod infer_expr;
pub mod inline;
pub mod pipeline;
pub mod laws;
pub mod specialize;
pub mod ownership;
pub mod bounds;
pub mod feedback;
pub mod darcy_build;
pub mod lsp;
pub mod manifest_edit;
pub mod modules;
pub mod edn;

pub use ast::{Expr, FnDef, StructDef, Top, Ty, UseDecl};
pub use datum::{datums_to_sexps, Datum};
pub use diag::{render_diag, render_diag_with_level, Diag, DslResult, Loc, Span};
pub use lexer::{lex, Tok, TokKind};
pub use macro_expand::expand_program;
pub use parser::{Parser, Sexp};
pub use pipeline::{analyze, compile, compile_with_modules, compile_with_modules_opts, read_expand_toplevel, CompileOptions, CompileOutput, PipelineOutput};
pub use modules::{compile_modules, ModuleLoader, ModuleRequest};
pub use feedback::{apply_feedback_hints, FeedbackHints};
pub use reader::Reader;
pub use syntax::parse_toplevel;
pub use typecheck::{typecheck_fn, typecheck_tops, FnEnv, FnSig, TypeEnv, TypecheckedProgram};
pub use typed::{CastHint, TypedExpr, TypedFn};
