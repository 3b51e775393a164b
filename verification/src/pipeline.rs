//! The front end as one pipeline: source text to a checked program.

use vstd::prelude::*;
use crate::ast::Top;
use crate::diag::{Diag, DslResult};
use crate::typecheck::TypecheckedProgram;

verus! {

/// The parsed top-level forms (inline functions expanded) and the result
/// of checking them.
#[derive(Debug)]
pub struct PipelineOutput {
    pub tops: Vec<Top>,
    pub typechecked: TypecheckedProgram,
}

/// Lexes, reads, macro-expands and parses `src` into top-level forms.
pub fn read_expand_toplevel(src: &str) -> (r: DslResult<Vec<Top>>)
    ensures
        src@.len() >= usize::MAX / 8 ==> r is Err,
{
    let toks = match crate::lexer::lex(src) {
        Ok(t) => t,
        Err(e) => return Err(e),
    };
    let mut reader = crate::reader::Reader::new(toks);
    let forms = match reader.parse_all() {
        Ok(f) => f,
        Err(e) => return Err(e),
    };
    let expanded = match crate::macro_expand::expand_program(forms.as_slice()) {
        Ok(x) => x,
        Err(e) => return Err(e),
    };
    let sexps = crate::datum::datums_to_sexps(expanded.as_slice());
    crate::syntax::parse_toplevel(sexps.as_slice())
}

/// Runs the front end on `src`: the top-level forms with inline functions
/// expanded, and the checked program.
pub fn analyze(src: &str) -> (r: DslResult<PipelineOutput>)
    ensures
        src@.len() >= usize::MAX / 8 ==> r is Err,
        r matches Ok(o) ==> o.typechecked.fn_env.wf() && o.typechecked.bounds_wf()
            && crate::typecheck::env_fields_concrete(o.typechecked.env)
            && (forall|i: int| 0 <= i < o.tops@.len() ==> !(#[trigger] o.tops@[i] is Inline))
            && !crate::inline::dup_fn(o.tops@) && !crate::inline::dup_type(o.tops@)
            && !crate::inline::has_stray_jump(o.tops@),
{
    let tops = match read_expand_toplevel(src) {
        Ok(t) => t,
        Err(e) => return Err(e),
    };
    let tops = match crate::inline::expand_inline_tops(&tops) {
        Ok(t) => t,
        Err(e) => return Err(e),
    };
    match crate::typecheck::typecheck_tops(&tops) {
        Ok(typechecked) => Ok(PipelineOutput { tops, typechecked }),
        Err(e) => Err(e),
    }
}

/// Compiles `src` as far as this library goes: the checked program, or
/// the first diagnostic.
pub fn compile(src: &str) -> (r: DslResult<PipelineOutput>)
    ensures
        src@.len() >= usize::MAX / 8 ==> r is Err,
        r matches Ok(o) ==> o.typechecked.fn_env.wf() && o.typechecked.bounds_wf()
            && crate::typecheck::env_fields_concrete(o.typechecked.env)
            && (forall|i: int| 0 <= i < o.tops@.len() ==> !(#[trigger] o.tops@[i] is Inline))
            && !crate::inline::dup_fn(o.tops@) && !crate::inline::dup_type(o.tops@)
            && !crate::inline::has_stray_jump(o.tops@),
{
    analyze(src)
}

/// The result of a compile with modules: the checked program and the
/// warnings found on the way.
#[derive(Debug)]
pub struct CompileOutput {
    pub program: PipelineOutput,
    pub warnings: Vec<Diag>,
}

/// Options of a compile: whether to use feedback from a first build.
#[derive(Debug, Clone, Copy)]
pub struct CompileOptions {
    pub feedback: bool,
}

impl CompileOptions {
    /// No feedback.
    pub fn new() -> (o: CompileOptions)
        ensures
            !o.feedback,
    {
        CompileOptions { feedback: false }
    }
}

/// Compiles the program whose modules `loader` has loaded: the modules'
/// forms resolved and checked, with default options.
pub fn compile_with_modules(loader: &crate::modules::ModuleLoader) -> (r: DslResult<CompileOutput>)
    requires
        loader.wf(),
    ensures
        r matches Ok(o) ==> o.program.typechecked.fn_env.wf() && o.program.typechecked.bounds_wf()
            && crate::modules::forms_of_modules(loader.mods(), o.program.tops@),
{
    let hints = crate::feedback::FeedbackHints::default();
    compile_with_modules_opts(loader, CompileOptions::new(), &hints)
}

/// Compiles the program whose modules `loader` has loaded. With
/// `opts.feedback`, the trait bounds in `hints` (read from a first build of
/// the generated code) are added to the checked functions.
pub fn compile_with_modules_opts(
    loader: &crate::modules::ModuleLoader,
    opts: CompileOptions,
    hints: &crate::feedback::FeedbackHints,
) -> (r: DslResult<CompileOutput>)
    requires
        loader.wf(),
    ensures
        r matches Ok(o) ==> o.program.typechecked.fn_env.wf() && o.program.typechecked.bounds_wf()
            && crate::modules::forms_of_modules(loader.mods(), o.program.tops@),
{
    let tops = match crate::modules::compile_modules(loader) {
        Ok(t) => t,
        Err(e) => return Err(e),
    };
    let mut typechecked = match crate::typecheck::typecheck_tops(&tops) {
        Ok(p) => p,
        Err(e) => return Err(e),
    };
    if opts.feedback {
        crate::feedback::apply_feedback_hints(&mut typechecked, hints);
    }
    let warnings = typechecked.warnings.clone();
    Ok(CompileOutput { program: PipelineOutput { tops, typechecked }, warnings })
}

impl Default for CompileOptions {
    fn default() -> (o: CompileOptions)
        ensures
            !o.feedback,
    {
        CompileOptions { feedback: false }
    }
}

} // verus!
