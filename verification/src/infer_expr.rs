//! Inference of the types of expressions: each form's rule, with the
//! types of subexpressions recorded by span and the casts that arithmetic
//! needs.

use vstd::prelude::*;
use crate::ast::{clone_expr, Expr, Iterable, MapKind, MatchArm, MatchPat, Ty};
use crate::diag::{Diag, DslResult, Span};
use crate::infer::{
    clone_ity, ensure_int_arg, ensure_map_arg, ensure_option_arg, ensure_result_arg, ensure_vec_arg,
    infer_binop, infer_from_ty, infer_to_ty, is_numeric, named, InferCtx, InferTy,
};
use crate::text::{concat2, concat3, concat5, copy, is_lit, usize_to_string};
use crate::typecheck::{FieldInfer, FieldInferEnv, InferFnEnv, InferFnSig, TypeEnv, instantiate_sig};
use crate::typed::{CastHint, SpanKey};

verus! {

/// An expression with its inference type, casts and subexpression types.
#[derive(Debug)]
pub struct InferExpr {
    pub expr: Expr,
    pub ty: InferTy,
    pub casts: Vec<CastHint>,
    pub types: Vec<(SpanKey, InferTy)>,
}

/// An enclosing loop: the type its `break`s give, and whether one did.
#[derive(Debug)]
pub struct LoopFrame {
    pub result_ty: InferTy,
    pub saw_break: bool,
}

/// What inference reads: the type and function environments, the
/// top-level values, the names of top-level values, and the function
/// being checked.
pub struct Scope<'a> {
    pub env: &'a TypeEnv,
    pub fields: &'a FieldInferEnv,
    pub fns: &'a InferFnEnv,
    pub globals: &'a Vec<(String, InferTy)>,
    pub def_base_names: &'a Vec<String>,
    pub current_fn: Option<String>,
}

fn leaf(e: &Expr, ty: InferTy, sp: Span) -> (r: InferExpr)
    ensures
        r.ty == ty,
        crate::ast::expr_same(r.expr, *e),
{
    let mut types: Vec<(SpanKey, InferTy)> = Vec::new();
    types.push((SpanKey::new(&sp), clone_ity(&ty)));
    InferExpr { expr: clone_expr(e), ty, casts: Vec::new(), types }
}

fn absorb(casts: &mut Vec<CastHint>, types: &mut Vec<(SpanKey, InferTy)>, te: &mut InferExpr) {
    casts.append(&mut te.casts);
    types.append(&mut te.types);
}

fn done(e: &Expr, ty: InferTy, span: Span, casts: Vec<CastHint>, types: Vec<(SpanKey, InferTy)>) -> (r: InferExpr) {
    let mut types = types;
    types.push((SpanKey::new(&span), clone_ity(&ty)));
    InferExpr { expr: clone_expr(e), ty, casts, types }
}

/// The type of a variable: the innermost local, else a top-level value.
fn lookup(vars: &Vec<(String, InferTy)>, name: &String) -> (r: Option<InferTy>)
    ensures
        r is None <==> forall|j: int| 0 <= j < vars@.len() ==> (#[trigger] vars@[j]).0@ != name@,
        r matches Some(t) ==> exists|j: int| 0 <= j < vars@.len() && (#[trigger] vars@[j]).0@ == name@
            && crate::infer::view_of(t) == crate::infer::view_of(vars@[j].1)
            && forall|k: int| j < k < vars@.len() ==> (#[trigger] vars@[k]).0@ != name@,
{
    let mut i = vars.len();
    while i > 0
        invariant
            i <= vars@.len(),
            forall|k: int| i <= k < vars@.len() ==> (#[trigger] vars@[k]).0@ != name@,
        decreases i,
    {
        i = i - 1;
        if vars[i].0 == *name {
            return Some(clone_ity(&vars[i].1));
        }
    }
    None
}

fn clone_vars(vars: &Vec<(String, InferTy)>) -> (r: Vec<(String, InferTy)>)
    ensures
        r@.len() == vars@.len(),
        forall|i: int| 0 <= i < vars@.len() ==> (#[trigger] r@[i]).0@ == vars@[i].0@
            && crate::infer::view_of(r@[i].1) == crate::infer::view_of(vars@[i].1),
{
    let mut out: Vec<(String, InferTy)> = Vec::new();
    let mut i: usize = 0;
    while i < vars.len()
        invariant
            i <= vars@.len(),
            out@.len() == i,
            forall|j: int| 0 <= j < i ==> (#[trigger] out@[j]).0@ == vars@[j].0@
                && crate::infer::view_of(out@[j].1) == crate::infer::view_of(vars@[j].1),
        decreases vars@.len() - i,
    {
        out.push((copy(&vars[i].0), clone_ity(&vars[i].1)));
        i = i + 1;
    }
    out
}

fn contains_name(names: &Vec<String>, n: &String) -> (b: bool)
    ensures
        b == crate::modules::listed(names@, n@),
{
    let mut i: usize = 0;
    while i < names.len()
        invariant
            i <= names@.len(),
            forall|j: int| 0 <= j < i ==> (#[trigger] names@[j])@ != n@,
        decreases names@.len() - i,
    {
        if names[i] == *n {
            return true;
        }
        i = i + 1;
    }
    false
}

fn find_fields<'a>(entries: &'a Vec<(String, Vec<FieldInfer>)>, name: &String) -> (r: Option<&'a Vec<FieldInfer>>) {
    let mut i: usize = 0;
    while i < entries.len()
        invariant
            i <= entries@.len(),
        decreases entries@.len() - i,
    {
        if entries[i].0 == *name {
            return Some(&entries[i].1);
        }
        i = i + 1;
    }
    None
}

fn find_field<'a>(fields: &'a Vec<FieldInfer>, rust_name: &String) -> (r: Option<&'a FieldInfer>) {
    let mut i: usize = 0;
    while i < fields.len()
        invariant
            i <= fields@.len(),
        decreases fields@.len() - i,
    {
        if fields[i].rust_name == *rust_name {
            return Some(&fields[i]);
        }
        i = i + 1;
    }
    None
}

/// The enum that `name` is a variant of, if it is one.
fn variant_union(env: &TypeEnv, name: &String) -> (r: Option<String>)
    ensures
        r matches Some(u) ==> exists|i: int| 0 <= i < env.variants@.len() && (#[trigger] env.variants@[i]).0@ == name@
            && u@ == env.variants@[i].1.0@ && forall|j: int| 0 <= j < i ==> (#[trigger] env.variants@[j]).0@ != name@,
        r is None ==> forall|j: int| 0 <= j < env.variants@.len() ==> (#[trigger] env.variants@[j]).0@ != name@,
{
    let mut i: usize = 0;
    while i < env.variants.len()
        invariant
            i <= env.variants@.len(),
            forall|j: int| 0 <= j < i ==> (#[trigger] env.variants@[j]).0@ != name@,
        decreases env.variants@.len() - i,
    {
        if env.variants[i].0 == *name {
            return Some(copy(&env.variants[i].1.0));
        }
        i = i + 1;
    }
    None
}

fn is_struct(env: &TypeEnv, name: &String) -> (b: bool) {
    let mut i: usize = 0;
    while i < env.structs.len()
        invariant
            i <= env.structs@.len(),
        decreases env.structs@.len() - i,
    {
        if env.structs[i].name == *name {
            return true;
        }
        i = i + 1;
    }
    false
}

/// The names of the variants of the enum `u`, in order.
pub open spec fn variant_names(u: crate::ast::UnionDef) -> Seq<Seq<char>> {
    u.variants@.map_values(|v: crate::ast::VariantDef| v.name@)
}

fn union_variant_names(env: &TypeEnv, name: &String) -> (r: Option<Vec<String>>)
    ensures
        r matches Some(v) ==> exists|i: int| 0 <= i < env.unions@.len() && (#[trigger] env.unions@[i]).name@ == name@
            && crate::modules::names_view(v@) == variant_names(env.unions@[i])
            && forall|j: int| 0 <= j < i ==> (#[trigger] env.unions@[j]).name@ != name@,
        r is None ==> forall|j: int| 0 <= j < env.unions@.len() ==> (#[trigger] env.unions@[j]).name@ != name@,
{
    let mut i: usize = 0;
    while i < env.unions.len()
        invariant
            i <= env.unions@.len(),
            forall|j: int| 0 <= j < i ==> (#[trigger] env.unions@[j]).name@ != name@,
        decreases env.unions@.len() - i,
    {
        if env.unions[i].name == *name {
            let vs = &env.unions[i].variants;
            let mut out: Vec<String> = Vec::new();
            let mut k: usize = 0;
            while k < vs.len()
                invariant
                    k <= vs@.len(),
                    vs@ == env.unions@[i as int].variants@,
                    out@.len() == k,
                    forall|j: int| 0 <= j < k ==> (#[trigger] out@[j])@ == vs@[j].name@,
                decreases vs@.len() - k,
            {
                out.push(copy(&vs[k].name));
                k = k + 1;
            }
            proof {
                assert(crate::modules::names_view(out@) =~= variant_names(env.unions@[i as int]));
            }
            return Some(out);
        }
        i = i + 1;
    }
    None
}

/// The message for a loop-only form outside any loop.
pub open spec fn outside_loop_message(is_break: bool) -> Seq<char> {
    if is_break {
        "break is only allowed inside loops"@
    } else {
        "continue is only allowed inside loops"@
    }
}

/// The type of a literal that needs no inference: a float, string,
/// symbol, boolean or unit literal.
pub open spec fn literal_type(e: Expr) -> Option<Seq<char>> {
    match e {
        Expr::Float(..) => Some("f64"@),
        Expr::Str(..) => Some("string"@),
        Expr::SymbolLit(..) => Some("string"@),
        Expr::Bool(..) => Some("bool"@),
        Expr::Unit(..) => Some("()"@),
        _ => None,
    }
}

/// No variable of `vars` is named `name`.
pub open spec fn lookup_miss(vars: Seq<(String, InferTy)>, name: Seq<char>) -> bool {
    forall|j: int| 0 <= j < vars.len() ==> (#[trigger] vars[j]).0@ != name
}

/// Infers the type of `e` in the local variables `vars`, inside the loops
/// of `loops`.
pub fn infer_expr(sc: &Scope, ctx: &mut InferCtx, vars: &Vec<(String, InferTy)>, loops: &mut Vec<LoopFrame>, e: &Expr) -> (r: DslResult<InferExpr>)
    requires
        old(ctx).wf(),
    ensures
        final(ctx).wf(),
        final(loops)@.len() == old(loops)@.len(),
        e is Break && old(loops)@.len() == 0 ==> r is Err && r->Err_0.message@ == outside_loop_message(true)
            && r->Err_0.span == Some(crate::ast::spec_expr_span(*e)) && *final(ctx) == *old(ctx)
            && final(loops)@ == old(loops)@,
        e is Continue && old(loops)@.len() == 0 ==> r is Err && r->Err_0.message@ == outside_loop_message(false)
            && r->Err_0.span == Some(crate::ast::spec_expr_span(*e)) && *final(ctx) == *old(ctx)
            && final(loops)@ == old(loops)@,
        e is Continue && old(loops)@.len() > 0 ==> (r matches Ok(x) && x.ty matches InferTy::Named(n) && n@ == "()"@)
            && *final(ctx) == *old(ctx) && final(loops)@ == old(loops)@,
        literal_type(*e) matches Some(n) ==> (r matches Ok(x) && x.ty matches InferTy::Named(m) && m@ == n
            && crate::ast::expr_same(x.expr, *e)) && *final(ctx) == *old(ctx) && final(loops)@ == old(loops)@,
        *e matches Expr::Var(v, sp) ==> (lookup_miss(vars@, v@) && lookup_miss(sc.globals@, v@) <==> r is Err)
            && (r is Err ==> r->Err_0.message@ == "unknown variable '"@ + v@ + "'"@ && r->Err_0.span == Some(sp))
            && *final(ctx) == *old(ctx) && final(loops)@ == old(loops)@,
    decreases e, 2nat,
{
    match e {
        Expr::Int(_, sp) => {
            let ty = match ctx.fresh_var() {
                Ok(t) => t,
                Err(err) => return Err(err),
            };
            ctx.numeric_constraints.push((clone_ity(&ty), *sp));
            Ok(leaf(e, ty, *sp))
        },
        Expr::Float(_, sp) => Ok(leaf(e, named("f64"), *sp)),
        Expr::Str(_, sp) => Ok(leaf(e, named("string"), *sp)),
        Expr::Bool(_, sp) => Ok(leaf(e, named("bool"), *sp)),
        Expr::Unit(sp) => Ok(leaf(e, named("()"), *sp)),
        Expr::SymbolLit(_, sp) => Ok(leaf(e, named("string"), *sp)),
        Expr::Var(v, sp) => {
            let ty = match lookup(vars, v) {
                Some(t) => t,
                None => match lookup(sc.globals, v) {
                    Some(t) => t,
                    None => {
                        let msg = concat3("unknown variable '", v.as_str(), "'");
                        return Err(Diag::from_message(msg).with_span(*sp));
                    },
                },
            };
            Ok(leaf(e, ty, *sp))
        },
        Expr::Ascribe { expr, ann, span } => {
            let mut te = match infer_expr(sc, ctx, vars, loops, expr) {
                Ok(t) => t,
                Err(err) => return Err(err),
            };
            let mut casts: Vec<CastHint> = Vec::new();
            let mut types: Vec<(SpanKey, InferTy)> = Vec::new();
            absorb(&mut casts, &mut types, &mut te);
            let ann_ty = match infer_from_ty(ctx, ann) {
                Ok(t) => t,
                Err(err) => return Err(err),
            };
            if let Err(err) = ctx.unify(&ann_ty, &te.ty, *span) {
                return Err(err);
            }
            Ok(done(e, ann_ty, *span, casts, types))
        },
        Expr::Cast { expr, ann, span } => {
            let mut te = match infer_expr(sc, ctx, vars, loops, expr) {
                Ok(t) => t,
                Err(err) => return Err(err),
            };
            let mut casts: Vec<CastHint> = Vec::new();
            let mut types: Vec<(SpanKey, InferTy)> = Vec::new();
            absorb(&mut casts, &mut types, &mut te);
            if !is_numeric(ann) {
                return Err(Diag::new("cast target must be a numeric type").with_span(*span));
            }
            let target_ty = match infer_from_ty(ctx, ann) {
                Ok(t) => t,
                Err(err) => return Err(err),
            };
            let resolved = ctx.resolve(&te.ty);
            match &resolved {
                InferTy::Named(name) => {
                    if !(crate::infer::is_numeric_name(name) || is_lit(name, "bool")) {
                        return Err(Diag::new("cast source must be numeric or bool").with_span(*span));
                    }
                },
                InferTy::Var(_) => {
                    ctx.numeric_constraints.push((clone_ity(&resolved), *span));
                },
                _ => return Err(Diag::new("cast source must be numeric or bool").with_span(*span)),
            }
            Ok(done(e, target_ty, *span, casts, types))
        },
        Expr::VecLit { elems, span, ann } => {
            let (elem_ty, casts, types) = match infer_elems(sc, ctx, vars, loops, elems, ann, *span, true) {
                Ok(x) => x,
                Err(err) => return Err(err),
            };
            let ty = InferTy::Vec(Box::new(ctx.resolve(&elem_ty)));
            Ok(done(e, ty, *span, casts, types))
        },
        Expr::SetLit { elems, span, ann } => {
            let (elem_ty, casts, types) = match infer_elems(sc, ctx, vars, loops, elems, ann, *span, false) {
                Ok(x) => x,
                Err(err) => return Err(err),
            };
            let ty = InferTy::SetOf(Box::new(ctx.resolve(&elem_ty)));
            Ok(done(e, ty, *span, casts, types))
        },
        Expr::Let { bindings, body, span } => {
            let (local_vars, mut casts, mut types) = match infer_bindings(sc, ctx, vars, loops, bindings) {
                Ok(x) => x,
                Err(err) => return Err(err),
            };
            let mut tbody = match infer_expr(sc, ctx, &local_vars, loops, body) {
                Ok(t) => t,
                Err(err) => return Err(err),
            };
            absorb(&mut casts, &mut types, &mut tbody);
            Ok(done(e, tbody.ty, *span, casts, types))
        },
        Expr::Lambda { params, body, span: _ } => {
            let (local_vars, param_tys) = match lambda_params(sc, ctx, vars, params) {
                Ok(x) => x,
                Err(err) => return Err(err),
            };
            let mut tbody = match infer_expr(sc, ctx, &local_vars, loops, body) {
                Ok(t) => t,
                Err(err) => return Err(err),
            };
            let mut casts: Vec<CastHint> = Vec::new();
            let mut types: Vec<(SpanKey, InferTy)> = Vec::new();
            absorb(&mut casts, &mut types, &mut tbody);
            let out_ty = InferTy::Fn(param_tys, Box::new(tbody.ty));
            Ok(InferExpr { expr: clone_expr(e), ty: out_ty, casts, types })
        },
        Expr::CallDyn { func, args, span } => {
            let mut tfunc = match infer_expr(sc, ctx, vars, loops, func) {
                Ok(t) => t,
                Err(err) => return Err(err),
            };
            let mut casts: Vec<CastHint> = Vec::new();
            let mut types: Vec<(SpanKey, InferTy)> = Vec::new();
            absorb(&mut casts, &mut types, &mut tfunc);
            let mut targs = match infer_args(sc, ctx, vars, loops, args) {
                Ok(t) => t,
                Err(err) => return Err(err),
            };
            let mut arg_tys: Vec<InferTy> = Vec::new();
            let mut k: usize = 0;
            while k < targs.len()
                invariant
                    k <= targs@.len(),
                decreases targs@.len() - k,
            {
                arg_tys.push(clone_ity(&targs[k].ty));
                k = k + 1;
            }
            absorb_all(&mut casts, &mut types, &mut targs);
            let ret = match ctx.fresh_var() {
                Ok(t) => t,
                Err(err) => return Err(err),
            };
            let fn_ty = InferTy::Fn(arg_tys, Box::new(clone_ity(&ret)));
            if let Err(err) = ctx.unify(&tfunc.ty, &fn_ty, *span) {
                return Err(err);
            }
            Ok(done(e, ret, *span, casts, types))
        },
        Expr::MethodCall { base, method, args, span } => {
            let mut tbase = match infer_expr(sc, ctx, vars, loops, base) {
                Ok(t) => t,
                Err(err) => return Err(err),
            };
            let mut casts: Vec<CastHint> = Vec::new();
            let mut types: Vec<(SpanKey, InferTy)> = Vec::new();
            absorb(&mut casts, &mut types, &mut tbase);
            let mut targs = match infer_args(sc, ctx, vars, loops, args) {
                Ok(t) => t,
                Err(err) => return Err(err),
            };
            let ret = match infer_method(ctx, &tbase.ty, method, &targs, args, *span) {
                Ok(t) => t,
                Err(err) => return Err(err),
            };
            absorb_all(&mut casts, &mut types, &mut targs);
            Ok(done(e, ret, *span, casts, types))
        },
        Expr::Do { exprs, span } => {
            let mut targs = match infer_args(sc, ctx, vars, loops, exprs) {
                Ok(t) => t,
                Err(err) => return Err(err),
            };
            let last_ty = if targs.len() > 0 {
                clone_ity(&targs[targs.len() - 1].ty)
            } else {
                named("()")
            };
            let mut casts: Vec<CastHint> = Vec::new();
            let mut types: Vec<(SpanKey, InferTy)> = Vec::new();
            absorb_all(&mut casts, &mut types, &mut targs);
            Ok(done(e, last_ty, *span, casts, types))
        },
        Expr::If { cond, then_br, else_br, span } => {
            let mut casts: Vec<CastHint> = Vec::new();
            let mut types: Vec<(SpanKey, InferTy)> = Vec::new();
            let mut tcond = match infer_expr(sc, ctx, vars, loops, cond) {
                Ok(t) => t,
                Err(err) => return Err(err),
            };
            absorb(&mut casts, &mut types, &mut tcond);
            if let Err(err) = ctx.unify(&tcond.ty, &named("bool"), cond.span()) {
                return Err(err);
            }
            let mut tthen = match infer_expr(sc, ctx, vars, loops, then_br) {
                Ok(t) => t,
                Err(err) => return Err(err),
            };
            absorb(&mut casts, &mut types, &mut tthen);
            let out_ty = match else_br {
                Some(eb) => {
                    let mut telse = match infer_expr(sc, ctx, vars, loops, eb) {
                        Ok(t) => t,
                        Err(err) => return Err(err),
                    };
                    absorb(&mut casts, &mut types, &mut telse);
                    if let Err(err) = ctx.unify(&tthen.ty, &telse.ty, eb.span()) {
                        return Err(err);
                    }
                    ctx.resolve(&tthen.ty)
                },
                None => named("()"),
            };
            Ok(done(e, out_ty, *span, casts, types))
        },
        Expr::Loop { body, span } => {
            let result_ty = match ctx.fresh_var() {
                Ok(t) => t,
                Err(err) => return Err(err),
            };
            infer_loop_body(sc, ctx, vars, loops, body, result_ty, e, *span, Vec::new(), Vec::new())
        },
        Expr::While { cond, body, span } => {
            let mut casts: Vec<CastHint> = Vec::new();
            let mut types: Vec<(SpanKey, InferTy)> = Vec::new();
            let mut tcond = match infer_expr(sc, ctx, vars, loops, cond) {
                Ok(t) => t,
                Err(err) => return Err(err),
            };
            absorb(&mut casts, &mut types, &mut tcond);
            if let Err(err) = ctx.unify(&tcond.ty, &named("bool"), cond.span()) {
                return Err(err);
            }
            let result_ty = match ctx.fresh_var() {
                Ok(t) => t,
                Err(err) => return Err(err),
            };
            infer_loop_body(sc, ctx, vars, loops, body, result_ty, e, *span, casts, types)
        },
        Expr::For { var, iter, body, span } => {
            let mut casts: Vec<CastHint> = Vec::new();
            let mut types: Vec<(SpanKey, InferTy)> = Vec::new();
            let elem_ty = match iter {
                Iterable::Range(range) => {
                    let mut tstart = match infer_expr(sc, ctx, vars, loops, &range.start) {
                        Ok(t) => t,
                        Err(err) => return Err(err),
                    };
                    let mut tend = match infer_expr(sc, ctx, vars, loops, &range.end) {
                        Ok(t) => t,
                        Err(err) => return Err(err),
                    };
                    absorb(&mut casts, &mut types, &mut tstart);
                    absorb(&mut casts, &mut types, &mut tend);
                    if let Err(err) = ctx.unify(&tstart.ty, &tend.ty, range.end.span()) {
                        return Err(err);
                    }
                    let mut elem_ty = ctx.resolve(&tstart.ty);
                    if let Some(step) = &range.step {
                        let mut tstep = match infer_expr(sc, ctx, vars, loops, step) {
                            Ok(t) => t,
                            Err(err) => return Err(err),
                        };
                        absorb(&mut casts, &mut types, &mut tstep);
                        if let Err(err) = ctx.unify(&elem_ty, &tstep.ty, step.span()) {
                            return Err(err);
                        }
                        elem_ty = ctx.resolve(&elem_ty);
                    }
                    let elem_resolved = ctx.resolve(&elem_ty);
                    match &elem_resolved {
                        InferTy::Var(_) => {
                            ctx.numeric_constraints.push((clone_ity(&elem_resolved), range.span));
                        },
                        _ => {
                            let concrete = match infer_to_ty(ctx, &elem_resolved) {
                                Some(t) => t,
                                None => return Err(Diag::new("cannot infer range element type").with_span(range.span)),
                            };
                            if !is_numeric(&concrete) {
                                return Err(Diag::new("range bounds must be numeric").with_span(range.span));
                            }
                        },
                    }
                    elem_ty
                },
                Iterable::Expr(ex) => {
                    let mut titer = match infer_expr(sc, ctx, vars, loops, ex) {
                        Ok(t) => t,
                        Err(err) => return Err(err),
                    };
                    absorb(&mut casts, &mut types, &mut titer);
                    let iter_ty = ctx.resolve(&titer.ty);
                    match iter_ty {
                        InferTy::Vec(inner) => *inner,
                        InferTy::Var(_) => {
                            let inner = match ctx.fresh_var() {
                                Ok(t) => t,
                                Err(err) => return Err(err),
                            };
                            let want = InferTy::Vec(Box::new(clone_ity(&inner)));
                            if let Err(err) = ctx.unify(&titer.ty, &want, ex.span()) {
                                return Err(err);
                            }
                            inner
                        },
                        _ => return Err(Diag::new("for loop iterable must be a vector").with_span(ex.span())),
                    }
                },
            };
            let mut body_vars = clone_vars(vars);
            body_vars.push((copy(var), elem_ty));
            let result_ty = match ctx.fresh_var() {
                Ok(t) => t,
                Err(err) => return Err(err),
            };
            infer_loop_body(sc, ctx, &body_vars, loops, body, result_ty, e, *span, casts, types)
        },
        Expr::Assign { name, expr, span } => {
            let mut texpr = match infer_expr(sc, ctx, vars, loops, expr) {
                Ok(t) => t,
                Err(err) => return Err(err),
            };
            let mut casts: Vec<CastHint> = Vec::new();
            let mut types: Vec<(SpanKey, InferTy)> = Vec::new();
            absorb(&mut casts, &mut types, &mut texpr);
            match lookup(vars, name) {
                Some(existing) => {
                    if let Err(err) = ctx.unify(&existing, &texpr.ty, *span) {
                        return Err(err);
                    }
                },
                None => {
                    let msg = concat3("unknown variable '", name.as_str(), "'");
                    return Err(Diag::from_message(msg).with_span(*span));
                },
            }
            Ok(done(e, named("()"), *span, casts, types))
        },
        Expr::Break { value, span } => {
            if loops.len() == 0 {
                return Err(Diag::new("break is only allowed inside loops").with_span(*span));
            }
            let idx = loops.len() - 1;
            let result_ty = clone_ity(&loops[idx].result_ty);
            let mut casts: Vec<CastHint> = Vec::new();
            let mut types: Vec<(SpanKey, InferTy)> = Vec::new();
            let value_ty = match value {
                Some(v) => {
                    let mut tv = match infer_expr(sc, ctx, vars, loops, v) {
                        Ok(t) => t,
                        Err(err) => return Err(err),
                    };
                    absorb(&mut casts, &mut types, &mut tv);
                    tv.ty
                },
                None => named("()"),
            };
            if let Err(err) = ctx.unify(&result_ty, &value_ty, *span) {
                return Err(err);
            }
            let frame = LoopFrame { result_ty: clone_ity(&loops[idx].result_ty), saw_break: true };
            loops.set(idx, frame);
            Ok(done(e, result_ty, *span, casts, types))
        },
        Expr::Continue { span } => {
            if loops.len() == 0 {
                return Err(Diag::new("continue is only allowed inside loops").with_span(*span));
            }
            Ok(leaf(e, named("()"), *span))
        },
        Expr::Pair { span, .. } => Err(Diag::new("pair literal is only allowed inside hash-map/new or btree-map/new").with_span(*span)),
        Expr::MapLit { kind, entries, span, ann } => {
            if entries.len() == 0 && ann.is_none() {
                return Err(Diag::new("cannot infer map type from empty literal; add hash-map<K,V> annotation").with_span(*span));
            }
            let (key0, val0) = match ann {
                Some((k, v)) => {
                    let kt = match infer_from_ty(ctx, k) {
                        Ok(t) => t,
                        Err(err) => return Err(err),
                    };
                    let vt = match infer_from_ty(ctx, v) {
                        Ok(t) => t,
                        Err(err) => return Err(err),
                    };
                    (Some(kt), Some(vt))
                },
                None => (None, None),
            };
            let (key_ty, val_ty, casts, types) = match infer_map_entries(sc, ctx, vars, loops, entries, key0, val0) {
                Ok(x) => x,
                Err(err) => return Err(err),
            };
            let key_ty = match key_ty {
                Some(t) => t,
                None => match ctx.fresh_var() {
                    Ok(t) => t,
                    Err(err) => return Err(err),
                },
            };
            let val_ty = match val_ty {
                Some(t) => t,
                None => match ctx.fresh_var() {
                    Ok(t) => t,
                    Err(err) => return Err(err),
                },
            };
            let out_ty = InferTy::MapOf(*kind, Box::new(key_ty), Box::new(val_ty));
            Ok(done(e, out_ty, *span, casts, types))
        },
        Expr::Field { base, field, span } => {
            let tb = match infer_expr(sc, ctx, vars, loops, base) {
                Ok(t) => t,
                Err(err) => return Err(err),
            };
            let ty = match field_type(sc, ctx, &tb.ty, field, *span) {
                Ok(t) => t,
                Err(err) => return Err(err),
            };
            let mut types = tb.types;
            types.push((SpanKey::new(span), clone_ity(&ty)));
            Ok(InferExpr { expr: clone_expr(e), ty, casts: tb.casts, types })
        },
        Expr::Match { scrutinee, arms, span } => {
            let scrut = match infer_expr(sc, ctx, vars, loops, scrutinee) {
                Ok(t) => t,
                Err(err) => return Err(err),
            };
            let union_name = match scrutinee_union(sc, ctx, &scrut.ty, arms, *span) {
                Ok(n) => n,
                Err(err) => return Err(err),
            };
            let all_variants = match union_variant_names(sc.env, &union_name) {
                Some(v) => v,
                None => {
                    let msg = concat3("type '", union_name.as_str(), "' is not a union");
                    return Err(Diag::from_message(msg).with_span(*span));
                },
            };
            let (seen, has_wildcard, out_ty, casts, types) = match infer_arms(sc, ctx, vars, loops, arms, &union_name) {
                Ok(x) => x,
                Err(err) => return Err(err),
            };
            let mut casts = casts;
            let mut types = types;
            let mut scrut = scrut;
            let mut scasts = Vec::new();
            let mut stypes = Vec::new();
            absorb(&mut scasts, &mut stypes, &mut scrut);
            scasts.append(&mut casts);
            stypes.append(&mut types);
            let missing = missing_variants(&all_variants, &seen);
            let new_expr = if missing.len() == 0 {
                if has_wildcard {
                    Expr::Match { scrutinee: Box::new(clone_expr(scrutinee)), arms: arms_without_wildcard(arms), span: *span }
                } else {
                    clone_expr(e)
                }
            } else {
                if !has_wildcard {
                    let list = join_names(&missing);
                    let msg = concat2("non-exhaustive case, missing: ", list.as_str());
                    return Err(Diag::from_message(msg).with_span(*span));
                }
                clone_expr(e)
            };
            let out_ty = match out_ty {
                Some(t) => t,
                None => match ctx.fresh_var() {
                    Ok(t) => t,
                    Err(err) => return Err(err),
                },
            };
            let r = done(&new_expr, out_ty, *span, scasts, stypes);
            Ok(r)
        },
        Expr::Call { op, args, span } => infer_call(sc, ctx, vars, loops, e, op, args, *span),
    }
}

fn absorb_all(casts: &mut Vec<CastHint>, types: &mut Vec<(SpanKey, InferTy)>, ts: &mut Vec<InferExpr>) {
    while ts.len() > 0
        invariant
            true,
        decreases ts@.len(),
    {
        let mut te = ts.remove(0);
        casts.append(&mut te.casts);
        types.append(&mut te.types);
    }
}

/// The element type of a vector (`is_vec`) or set literal: the annotated
/// element type unified with every element, or the elements' common type.
fn infer_elems(sc: &Scope, ctx: &mut InferCtx, vars: &Vec<(String, InferTy)>, loops: &mut Vec<LoopFrame>, elems: &Vec<Expr>, ann: &Option<Ty>, span: Span, is_vec: bool) -> (r: DslResult<(InferTy, Vec<CastHint>, Vec<(SpanKey, InferTy)>)>)
    requires
        old(ctx).wf(),
    ensures
        final(ctx).wf(),
        final(loops)@.len() == old(loops)@.len(),
    decreases elems, 1nat,
{
    let mut targs = match infer_args(sc, ctx, vars, loops, elems) {
        Ok(t) => t,
        Err(err) => return Err(err),
    };
    let mut casts: Vec<CastHint> = Vec::new();
    let mut types: Vec<(SpanKey, InferTy)> = Vec::new();
    let mut tys: Vec<(InferTy, Span)> = Vec::new();
    let mut k: usize = 0;
    while k < targs.len()
        invariant
            k <= targs@.len(),
        decreases targs@.len() - k,
    {
        tys.push((clone_ity(&targs[k].ty), targs[k].expr.span()));
        k = k + 1;
    }
    absorb_all(&mut casts, &mut types, &mut targs);
    let inner_ann = match ann {
        Some(Ty::Vec(inner)) => if is_vec { Some(&**inner) } else { None },
        Some(Ty::SetOf(inner)) => if !is_vec { Some(&**inner) } else { None },
        _ => None,
    };
    if ann.is_some() && inner_ann.is_none() {
        return Err(Diag::new(if is_vec { "vector literal must use Vec<T> annotation" } else { "set literal must use set<T> annotation" }).with_span(span));
    }
    match inner_ann {
        Some(inner) => {
            let ann_ty = match infer_from_ty(ctx, inner) {
                Ok(t) => t,
                Err(err) => return Err(err),
            };
            let mut k: usize = 0;
            while k < tys.len()
                invariant
                    k <= tys@.len(),
                    ctx.wf(),
                    loops@.len() == old(loops)@.len(),
                decreases tys@.len() - k,
            {
                if let Err(err) = ctx.unify(&ann_ty, &tys[k].0, tys[k].1) {
                    return Err(err);
                }
                k = k + 1;
            }
            Ok((ann_ty, casts, types))
        },
        None => {
            if tys.len() == 0 {
                return Err(Diag::new(if is_vec { "cannot infer vector element type from empty literal; add Vec<T>" } else { "cannot infer set element type from empty literal; add set<T>" }).with_span(span));
            }
            let mut cur = clone_ity(&tys[0].0);
            let mut k: usize = 1;
            while k < tys.len()
                invariant
                    1 <= k <= tys@.len(),
                    ctx.wf(),
                    loops@.len() == old(loops)@.len(),
                decreases tys@.len() - k,
            {
                if let Err(err) = ctx.unify(&cur, &tys[k].0, tys[k].1) {
                    return Err(err);
                }
                cur = ctx.resolve(&cur);
                k = k + 1;
            }
            Ok((cur, casts, types))
        },
    }
}

/// The expressions' inferred forms, in order.
fn infer_args(sc: &Scope, ctx: &mut InferCtx, vars: &Vec<(String, InferTy)>, loops: &mut Vec<LoopFrame>, args: &Vec<Expr>) -> (r: DslResult<Vec<InferExpr>>)
    requires
        old(ctx).wf(),
    ensures
        final(ctx).wf(),
        final(loops)@.len() == old(loops)@.len(),
        r matches Ok(v) ==> v@.len() == args@.len(),
    decreases args, 0nat,
{
    let mut out: Vec<InferExpr> = Vec::new();
    let mut i: usize = 0;
    while i < args.len()
        invariant
            i <= args@.len(),
            out@.len() == i,
            ctx.wf(),
            loops@.len() == old(loops)@.len(),
        decreases args@.len() - i,
    {
        match infer_expr(sc, ctx, vars, loops, &args[i]) {
            Ok(t) => out.push(t),
            Err(err) => return Err(err),
        }
        i = i + 1;
    }
    Ok(out)
}

/// The local variables after `let` bindings: each must be new in the form
/// and not shadow a top-level value; its type is its expression's, unified
/// with its annotation.
fn infer_bindings(sc: &Scope, ctx: &mut InferCtx, vars: &Vec<(String, InferTy)>, loops: &mut Vec<LoopFrame>, bindings: &Vec<crate::ast::LetBinding>) -> (r: DslResult<(Vec<(String, InferTy)>, Vec<CastHint>, Vec<(SpanKey, InferTy)>)>)
    requires
        old(ctx).wf(),
    ensures
        final(ctx).wf(),
        final(loops)@.len() == old(loops)@.len(),
    decreases bindings, 1nat,
{
    let mut local_vars = clone_vars(vars);
    let mut seen: Vec<String> = Vec::new();
    let mut casts: Vec<CastHint> = Vec::new();
    let mut types: Vec<(SpanKey, InferTy)> = Vec::new();
    let mut i: usize = 0;
    while i < bindings.len()
        invariant
            i <= bindings@.len(),
            ctx.wf(),
            loops@.len() == old(loops)@.len(),
        decreases bindings@.len() - i,
    {
        let b = &bindings[i];
        if contains_name(&seen, &b.rust_name) {
            let msg = concat3("duplicate let binding '", b.name.as_str(), "'");
            return Err(Diag::from_message(msg).with_span(b.span));
        }
        seen.push(copy(&b.rust_name));
        if contains_name(sc.def_base_names, &b.rust_name) {
            let msg = concat3("let binding '", b.name.as_str(), "' shadows a def name");
            return Err(Diag::from_message(msg).with_span(b.span));
        }
        let mut te = match infer_expr(sc, ctx, &local_vars, loops, &b.expr) {
            Ok(t) => t,
            Err(err) => return Err(err),
        };
        absorb(&mut casts, &mut types, &mut te);
        let ty = match &b.ann {
            Some(ann) => {
                let ann_ty = match infer_from_ty(ctx, ann) {
                    Ok(t) => t,
                    Err(err) => return Err(err),
                };
                if let Err(err) = ctx.unify(&ann_ty, &te.ty, b.span) {
                    return Err(err);
                }
                ann_ty
            },
            None => te.ty,
        };
        local_vars.push((copy(&b.rust_name), ty));
        i = i + 1;
    }
    Ok((local_vars, casts, types))
}

/// The local variables of a lambda body and its parameter types.
fn lambda_params(sc: &Scope, ctx: &mut InferCtx, vars: &Vec<(String, InferTy)>, params: &Vec<crate::ast::Param>) -> (r: DslResult<(Vec<(String, InferTy)>, Vec<InferTy>)>)
    requires
        old(ctx).wf(),
    ensures
        final(ctx).wf(),
{
    let mut local_vars = clone_vars(vars);
    let mut seen: Vec<String> = Vec::new();
    let mut tys: Vec<InferTy> = Vec::new();
    let mut i: usize = 0;
    while i < params.len()
        invariant
            i <= params@.len(),
            ctx.wf(),
        decreases params@.len() - i,
    {
        let p = &params[i];
        if contains_name(&seen, &p.rust_name) {
            let msg = concat3("duplicate parameter '", p.name.as_str(), "'");
            return Err(Diag::from_message(msg).with_span(p.span));
        }
        seen.push(copy(&p.rust_name));
        if contains_name(sc.def_base_names, &p.rust_name) {
            let msg = concat3("parameter '", p.name.as_str(), "' shadows a def name");
            return Err(Diag::from_message(msg).with_span(p.span));
        }
        let ty = match &p.ann {
            Some(ann) => match infer_from_ty(ctx, ann) {
                Ok(t) => t,
                Err(err) => return Err(err),
            },
            None => match ctx.fresh_var() {
                Ok(t) => t,
                Err(err) => return Err(err),
            },
        };
        tys.push(clone_ity(&ty));
        local_vars.push((copy(&p.rust_name), ty));
        i = i + 1;
    }
    Ok((local_vars, tys))
}

/// The result type of `.len`, `.is_empty` and `.push` on vectors and
/// strings; other methods give a fresh variable.
fn infer_method(ctx: &mut InferCtx, base_ty: &InferTy, method: &String, targs: &Vec<InferExpr>, args: &Vec<Expr>, span: Span) -> (r: DslResult<InferTy>)
    requires
        old(ctx).wf(),
        targs@.len() == args@.len(),
    ensures
        final(ctx).wf(),
{
    let ret = match ctx.fresh_var() {
        Ok(t) => t,
        Err(err) => return Err(err),
    };
    let b = ctx.resolve(base_ty);
    let is_len = is_lit(method, "len");
    let is_empty = is_lit(method, "is_empty");
    let is_push = is_lit(method, "push");
    let is_vec = matches!(b, InferTy::Vec(_));
    let is_var = matches!(b, InferTy::Var(_));
    let is_string = match &b {
        InferTy::Named(n) => is_lit(n, "string"),
        _ => false,
    };
    if (is_vec || is_string || is_var) && is_len {
        if targs.len() != 0 {
            return Err(Diag::new("len expects 0 arguments").with_span(span));
        }
        return Ok(named("usize"));
    }
    if (is_vec || is_string || is_var) && is_empty {
        if targs.len() != 0 {
            return Err(Diag::new("is_empty expects 0 arguments").with_span(span));
        }
        return Ok(named("bool"));
    }
    if is_push {
        if let InferTy::Vec(inner) = &b {
            if targs.len() != 1 {
                return Err(Diag::new("push expects 1 argument").with_span(span));
            }
            if let Err(err) = ctx.unify(&targs[0].ty, inner, args[0].span()) {
                return Err(err);
            }
            return Ok(named("()"));
        }
    }
    Ok(ret)
}

/// A loop body checked inside a new loop frame: the loop gives the type of
/// its `break`s, or `()` when there are none.
fn infer_loop_body(sc: &Scope, ctx: &mut InferCtx, vars: &Vec<(String, InferTy)>, loops: &mut Vec<LoopFrame>, body: &Expr, result_ty: InferTy, e: &Expr, span: Span, casts: Vec<CastHint>, types: Vec<(SpanKey, InferTy)>) -> (r: DslResult<InferExpr>)
    requires
        old(ctx).wf(),
    ensures
        final(ctx).wf(),
        final(loops)@.len() == old(loops)@.len(),
    decreases body, 3nat,
{
    let mut casts = casts;
    let mut types = types;
    loops.push(LoopFrame { result_ty, saw_break: false });
    let tbody = infer_expr(sc, ctx, vars, loops, body);
    let frame = loops.pop();
    let mut tbody = match tbody {
        Ok(t) => t,
        Err(err) => return Err(err),
    };
    absorb(&mut casts, &mut types, &mut tbody);
    let out_ty = match frame {
        Some(f) => if f.saw_break { ctx.resolve(&f.result_ty) } else { named("()") },
        None => named("()"),
    };
    Ok(done(e, out_ty, span, casts, types))
}

/// Keys and values of map entries unified with each other (and with the
/// annotation's types when given).
fn infer_map_entries(sc: &Scope, ctx: &mut InferCtx, vars: &Vec<(String, InferTy)>, loops: &mut Vec<LoopFrame>, entries: &Vec<(Expr, Expr)>, key0: Option<InferTy>, val0: Option<InferTy>) -> (r: DslResult<(Option<InferTy>, Option<InferTy>, Vec<CastHint>, Vec<(SpanKey, InferTy)>)>)
    requires
        old(ctx).wf(),
    ensures
        final(ctx).wf(),
        final(loops)@.len() == old(loops)@.len(),
    decreases entries, 1nat,
{
    let mut key_ty = key0;
    let mut val_ty = val0;
    let mut casts: Vec<CastHint> = Vec::new();
    let mut types: Vec<(SpanKey, InferTy)> = Vec::new();
    let mut i: usize = 0;
    while i < entries.len()
        invariant
            i <= entries@.len(),
            ctx.wf(),
            loops@.len() == old(loops)@.len(),
        decreases entries@.len() - i,
    {
        let mut tk = match infer_expr(sc, ctx, vars, loops, &entries[i].0) {
            Ok(t) => t,
            Err(err) => return Err(err),
        };
        let mut tv = match infer_expr(sc, ctx, vars, loops, &entries[i].1) {
            Ok(t) => t,
            Err(err) => return Err(err),
        };
        absorb(&mut casts, &mut types, &mut tk);
        absorb(&mut casts, &mut types, &mut tv);
        match &key_ty {
            Some(cur) => {
                if let Err(err) = ctx.unify(cur, &tk.ty, entries[i].0.span()) {
                    return Err(err);
                }
            },
            None => {},
        }
        if key_ty.is_none() {
            key_ty = Some(clone_ity(&tk.ty));
        }
        match &val_ty {
            Some(cur) => {
                if let Err(err) = ctx.unify(cur, &tv.ty, entries[i].1.span()) {
                    return Err(err);
                }
            },
            None => {},
        }
        if val_ty.is_none() {
            val_ty = Some(clone_ity(&tv.ty));
        }
        i = i + 1;
    }
    Ok((key_ty, val_ty, casts, types))
}

/// The type of `base.field`: a field of a record, or of the record
/// elements of a vector (giving a vector).
fn field_type(sc: &Scope, ctx: &mut InferCtx, base_ty: &InferTy, field: &String, span: Span) -> (r: DslResult<InferTy>)
    requires
        old(ctx).wf(),
    ensures
        final(ctx).wf(),
{
    let b = ctx.resolve(base_ty);
    let (struct_name, is_vec) = match &b {
        InferTy::Named(n) => (copy(n), false),
        InferTy::Vec(inner) => match &**inner {
            InferTy::Named(n) => (copy(n), true),
            InferTy::Var(_) => return Err(Diag::new("cannot access field on unknown vector type").with_span(span)),
            InferTy::Vec(_) => return Err(Diag::new("cannot access field on nested vector type").with_span(span)),
            InferTy::SetOf(_) => return Err(Diag::new("cannot access field on set type").with_span(span)),
            _ => return Err(Diag::new("cannot access field on non-struct vector type").with_span(span)),
        },
        InferTy::Var(_) => return Err(Diag::new("cannot access field on unknown type").with_span(span)),
        InferTy::SetOf(_) => return Err(Diag::new("cannot access field on set type").with_span(span)),
        _ => return Err(Diag::new("cannot access field on non-struct type").with_span(span)),
    };
    let fields = match find_fields(&sc.fields.structs, &struct_name) {
        Some(f) => f,
        None => {
            let msg = concat3("unknown type '", struct_name.as_str(), "'");
            return Err(Diag::from_message(msg).with_span(span));
        },
    };
    let f = match find_field(fields, field) {
        Some(f) => f,
        None => {
            let msg = concat5("type '", struct_name.as_str(), "' has no field '", field.as_str(), "'");
            return Err(Diag::from_message(msg).with_span(span));
        },
    };
    let ty = clone_ity(&f.ty);
    if is_vec {
        Ok(InferTy::Vec(Box::new(ty)))
    } else {
        Ok(ty)
    }
}

/// The enum a `case` is over: the scrutinee's named type, or, for a
/// variable, the enum of the arms' variants (which must all agree).
fn scrutinee_union(sc: &Scope, ctx: &mut InferCtx, scrut_ty: &InferTy, arms: &Vec<MatchArm>, span: Span) -> (r: DslResult<String>)
    requires
        old(ctx).wf(),
    ensures
        final(ctx).wf(),
        crate::infer::apply(old(ctx).subs@, *scrut_ty) matches crate::infer::TyView::Named(n)
            ==> (r matches Ok(u) && u@ == n) && *final(ctx) == *old(ctx),
        crate::infer::apply(old(ctx).subs@, *scrut_ty) is Vec ==> r is Err
            && r->Err_0.message@ == "cannot case on vector type"@ && r->Err_0.span == Some(span),
        crate::infer::apply(old(ctx).subs@, *scrut_ty) is SetOf ==> r is Err
            && r->Err_0.message@ == "cannot case on set type"@ && r->Err_0.span == Some(span),
        !(crate::infer::apply(old(ctx).subs@, *scrut_ty) is Named) && !(crate::infer::apply(old(ctx).subs@, *scrut_ty) is Var)
            && !(crate::infer::apply(old(ctx).subs@, *scrut_ty) is Vec) && !(crate::infer::apply(old(ctx).subs@, *scrut_ty) is SetOf)
            ==> r is Err && r->Err_0.message@ == "cannot case on non-union type"@ && r->Err_0.span == Some(span),
{
    let b = ctx.resolve(scrut_ty);
    match &b {
        InferTy::Named(n) => Ok(copy(n)),
        InferTy::Var(_) => {
            let inferred = match infer_union_from_match_arms(sc.env, arms, span) {
                Ok(n) => n,
                Err(err) => return Err(err),
            };
            let target = InferTy::Named(copy(&inferred));
            match ctx.unify(scrut_ty, &target, span) {
                Ok(()) => Ok(inferred),
                Err(err) => Err(err),
            }
        },
        InferTy::Vec(_) => Err(Diag::new("cannot case on vector type").with_span(span)),
        InferTy::SetOf(_) => Err(Diag::new("cannot case on set type").with_span(span)),
        _ => Err(Diag::new("cannot case on non-union type").with_span(span)),
    }
}

/// The enum of the variants named in `case` arms; all must belong to it.
pub fn infer_union_from_match_arms(env: &TypeEnv, arms: &Vec<MatchArm>, span: Span) -> (r: DslResult<String>) {
    let mut union_name: Option<String> = None;
    let mut i: usize = 0;
    while i < arms.len()
        invariant
            i <= arms@.len(),
        decreases arms@.len() - i,
    {
        if let MatchPat::Variant { name, span: psp, .. } = &arms[i].pat {
            let u = match variant_union(env, name) {
                Some(u) => u,
                None => {
                    let msg = concat3("unknown variant '", name.as_str(), "'");
                    return Err(Diag::from_message(msg).with_span(*psp));
                },
            };
            match &union_name {
                Some(cur) => {
                    if *cur != u {
                        let msg = concat5("variant '", name.as_str(), "' does not belong to '", cur.as_str(), "'");
                        return Err(Diag::from_message(msg).with_span(*psp));
                    }
                },
                None => {},
            }
            if union_name.is_none() {
                union_name = Some(u);
            }
        }
        i = i + 1;
    }
    match union_name {
        Some(n) => Ok(n),
        None => Err(Diag::new("cannot infer union type from case").with_span(span)),
    }
}

/// The arms of a `case` over `union_name`: the variants they name, whether
/// one is `_`, and their common type.
fn infer_arms(sc: &Scope, ctx: &mut InferCtx, vars: &Vec<(String, InferTy)>, loops: &mut Vec<LoopFrame>, arms: &Vec<MatchArm>, union_name: &String) -> (r: DslResult<(Vec<String>, bool, Option<InferTy>, Vec<CastHint>, Vec<(SpanKey, InferTy)>)>)
    requires
        old(ctx).wf(),
    ensures
        final(ctx).wf(),
        final(loops)@.len() == old(loops)@.len(),
    decreases arms, 1nat,
{
    let mut seen: Vec<String> = Vec::new();
    let mut has_wildcard = false;
    let mut out_ty: Option<InferTy> = None;
    let mut casts: Vec<CastHint> = Vec::new();
    let mut types: Vec<(SpanKey, InferTy)> = Vec::new();
    let mut i: usize = 0;
    while i < arms.len()
        invariant
            i <= arms@.len(),
            ctx.wf(),
            loops@.len() == old(loops)@.len(),
        decreases arms@.len() - i,
    {
        let arm = &arms[i];
        let mut arm_vars = clone_vars(vars);
        match &arm.pat {
            MatchPat::Variant { name, bindings, span: psp } => {
                let u = match variant_union(sc.env, name) {
                    Some(u) => u,
                    None => {
                        let msg = concat3("unknown variant '", name.as_str(), "'");
                        return Err(Diag::from_message(msg).with_span(*psp));
                    },
                };
                let vfields = match find_fields(&sc.fields.variants, name) {
                    Some(f) => f,
                    None => return Err(Diag::new("internal error: missing variant inference").with_span(*psp)),
                };
                if u != *union_name {
                    let msg = concat5("variant '", name.as_str(), "' does not belong to '", union_name.as_str(), "'");
                    return Err(Diag::from_message(msg).with_span(*psp));
                }
                if !contains_name(&seen, name) {
                    seen.push(copy(name));
                }
                let mut k: usize = 0;
                while k < bindings.len()
                    invariant
                        k <= bindings@.len(),
                        ctx.wf(),
                        loops@.len() == old(loops)@.len(),
                    decreases bindings@.len() - k,
                {
                    let (field, binding, bspan) = &bindings[k];
                    let f = match find_field(vfields, field) {
                        Some(f) => f,
                        None => {
                            let msg = concat5("variant '", name.as_str(), "' has no field '", field.as_str(), "'");
                            return Err(Diag::from_message(msg).with_span(*bspan));
                        },
                    };
                    if !is_lit(binding, "_") {
                        arm_vars.push((copy(binding), clone_ity(&f.ty)));
                    }
                    k = k + 1;
                }
            },
            MatchPat::Wildcard(_) => {
                has_wildcard = true;
            },
        }
        let mut tarm = match infer_expr(sc, ctx, &arm_vars, loops, &arm.body) {
            Ok(t) => t,
            Err(err) => return Err(err),
        };
        absorb(&mut casts, &mut types, &mut tarm);
        match &out_ty {
            Some(cur) => {
                if let Err(err) = ctx.unify(cur, &tarm.ty, arm.body.span()) {
                    return Err(err);
                }
            },
            None => {},
        }
        if out_ty.is_none() {
            out_ty = Some(tarm.ty);
        }
        i = i + 1;
    }
    Ok((seen, has_wildcard, out_ty, casts, types))
}

/// The names of `all` that `seen` lacks, in order.
pub open spec fn names_missing(all: Seq<Seq<char>>, seen: Seq<Seq<char>>) -> Seq<Seq<char>>
    decreases all.len(),
{
    if all.len() == 0 {
        seq![]
    } else if seen.contains(all.last()) {
        names_missing(all.drop_last(), seen)
    } else {
        names_missing(all.drop_last(), seen).push(all.last())
    }
}

fn missing_variants(all: &Vec<String>, seen: &Vec<String>) -> (r: Vec<String>)
    ensures
        crate::modules::names_view(r@) == names_missing(crate::modules::names_view(all@), crate::modules::names_view(seen@)),
{
    let ghost a = crate::modules::names_view(all@);
    let ghost sn = crate::modules::names_view(seen@);
    let mut out: Vec<String> = Vec::new();
    let mut i: usize = 0;
    while i < all.len()
        invariant
            i <= all@.len(),
            a == crate::modules::names_view(all@),
            sn == crate::modules::names_view(seen@),
            crate::modules::names_view(out@) == names_missing(a.take(i as int), sn),
        decreases all@.len() - i,
    {
        proof {
            assert(a.take(i + 1).drop_last() =~= a.take(i as int));
            assert(a.take(i + 1).last() == all@[i as int]@);
            if crate::modules::listed(seen@, all@[i as int]@) {
                let k = choose|k: int| 0 <= k < seen@.len() && (#[trigger] seen@[k])@ == all@[i as int]@;
                assert(sn[k] == all@[i as int]@);
            }
            if sn.contains(all@[i as int]@) {
                let k = choose|k: int| 0 <= k < sn.len() && sn[k] == all@[i as int]@;
                assert(seen@[k]@ == all@[i as int]@);
            }
        }
        if !contains_name(seen, &all[i]) {
            let ghost prev = out@;
            out.push(copy(&all[i]));
            proof {
                assert(crate::modules::names_view(out@) =~= crate::modules::names_view(prev).push(all@[i as int]@));
            }
        }
        i = i + 1;
    }
    proof {
        assert(a.take(all@.len() as int) =~= a);
    }
    out
}

fn join_names(names: &Vec<String>) -> (r: String) {
    let mut s = String::new();
    let mut i: usize = 0;
    while i < names.len()
        invariant
            i <= names@.len(),
        decreases names@.len() - i,
    {
        if i > 0 {
            s.append(", ");
        }
        s.append(names[i].as_str());
        i = i + 1;
    }
    s
}

/// `out` is `arms` without the wildcard arms, the others copied in order.
pub open spec fn arms_kept(out: Seq<MatchArm>, arms: Seq<MatchArm>) -> bool
    decreases arms.len(),
{
    if arms.len() == 0 {
        out.len() == 0
    } else if arms.last().pat is Wildcard {
        arms_kept(out, arms.drop_last())
    } else {
        &&& out.len() > 0
        &&& arms_kept(out.drop_last(), arms.drop_last())
        &&& crate::ast::pat_same(out.last().pat, arms.last().pat)
        &&& crate::ast::expr_same(out.last().body, arms.last().body)
        &&& out.last().span == arms.last().span
    }
}

fn arms_without_wildcard(arms: &Vec<MatchArm>) -> (r: Vec<MatchArm>)
    ensures
        arms_kept(r@, arms@),
{
    let mut out: Vec<MatchArm> = Vec::new();
    let mut i: usize = 0;
    proof {
        assert(arms@.take(0) =~= Seq::<MatchArm>::empty());
    }
    while i < arms.len()
        invariant
            i <= arms@.len(),
            arms_kept(out@, arms@.take(i as int)),
        decreases arms@.len() - i,
    {
        proof {
            assert(arms@.take(i + 1).drop_last() =~= arms@.take(i as int));
            assert(arms@.take(i + 1).last() == arms@[i as int]);
        }
        let keep = match &arms[i].pat {
            MatchPat::Wildcard(_) => false,
            _ => true,
        };
        if keep {
            let ghost prev = out@;
            out.push(MatchArm { pat: crate::ast::clone_pat(&arms[i].pat), body: clone_expr(&arms[i].body), span: arms[i].span });
            proof {
                assert(out@.drop_last() =~= prev);
            }
        }
        i = i + 1;
    }
    proof {
        assert(arms@.take(arms@.len() as int) =~= arms@);
    }
    out
}

/// Which builtin operation a call head names.
fn op_is(op: &String, lit: &str) -> (b: bool)
    ensures
        b == (op@ == lit@),
{
    is_lit(op, lit)
}

fn arity_error(msg: &str, span: Span) -> (d: Diag) {
    Diag::new(msg).with_span(span)
}

/// The type of a call of a builtin operation, or `None` when `op` is not
/// one of the builtins checked before user functions.
fn infer_builtin(ctx: &mut InferCtx, op: &String, targs: &Vec<InferExpr>, args: &Vec<Expr>, span: Span) -> (r: Option<DslResult<InferTy>>)
    requires
        old(ctx).wf(),
        targs@.len() == args@.len(),
    ensures
        final(ctx).wf(),
{
    let n = targs.len();
    if op_is(op, "darcy.io/dbg") {
        if n != 1 { return Some(Err(arity_error("'dbg' expects 1 argument", span))); }
        return Some(Ok(named("()")));
    }
    if op_is(op, "darcy.fmt/print") || op_is(op, "darcy.fmt/println") {
        if n != 1 { return Some(Err(arity_error("'print' expects 1 argument", span))); }
        return Some(Ok(named("()")));
    }
    if op_is(op, "darcy.fmt/format") || op_is(op, "darcy.fmt/pretty") {
        if n != 1 { return Some(Err(arity_error("'format' expects 1 argument", span))); }
        return Some(Ok(named("string")));
    }
    if op_is(op, "darcy.option/some") {
        if n != 1 { return Some(Err(arity_error("'some' expects 1 argument", span))); }
        return Some(Ok(InferTy::Option(Box::new(clone_ity(&targs[0].ty)))));
    }
    if op_is(op, "darcy.option/none") {
        if n != 0 { return Some(Err(arity_error("'none' expects 0 arguments", span))); }
        return Some(match ctx.fresh_var() {
            Ok(t) => Ok(InferTy::Option(Box::new(t))),
            Err(err) => Err(err),
        });
    }
    if op_is(op, "darcy.option/is-some") || op_is(op, "darcy.option/is-none") {
        if n != 1 { return Some(Err(arity_error("'is-some' expects 1 argument", span))); }
        return Some(match ensure_option_arg(ctx, &targs[0].ty, args[0].span()) {
            Ok(_) => Ok(named("bool")),
            Err(err) => Err(err),
        });
    }
    if op_is(op, "darcy.result/ok") || op_is(op, "darcy.result/err") {
        let is_ok = op_is(op, "darcy.result/ok");
        if n != 1 { return Some(Err(arity_error(if is_ok { "'ok' expects 1 argument" } else { "'err' expects 1 argument" }, span))); }
        let other = match ctx.fresh_var() {
            Ok(t) => t,
            Err(err) => return Some(Err(err)),
        };
        let given = clone_ity(&targs[0].ty);
        return Some(Ok(if is_ok {
            InferTy::Result(Box::new(given), Box::new(other))
        } else {
            InferTy::Result(Box::new(other), Box::new(given))
        }));
    }
    if op_is(op, "darcy.result/is-ok") || op_is(op, "darcy.result/is-err") {
        if n != 1 { return Some(Err(arity_error("'is-ok' expects 1 argument", span))); }
        return Some(match ensure_result_arg(ctx, &targs[0].ty, args[0].span()) {
            Ok(_) => Ok(named("bool")),
            Err(err) => Err(err),
        });
    }
    if op_is(op, "darcy.math/exp") {
        if n != 1 { return Some(Err(arity_error("'exp' expects 1 argument", span))); }
        return Some(match ctx.unify(&targs[0].ty, &named("f64"), args[0].span()) {
            Ok(()) => Ok(named("f64")),
            Err(err) => Err(err),
        });
    }
    if op_is(op, "darcy.vec/is-empty") {
        if n != 1 { return Some(Err(arity_error("'is-empty' expects 1 argument", span))); }
        return Some(match ensure_vec_arg(ctx, &targs[0].ty, args[0].span()) {
            Ok(_) => Ok(named("bool")),
            Err(err) => Err(err),
        });
    }
    if op_is(op, "darcy.math/min") || op_is(op, "darcy.math/max") || op_is(op, "darcy.math/clamp") || op_is(op, "darcy.math/abs") {
        return Some(infer_math(ctx, op, targs, args, span));
    }
    if op_is(op, "darcy.op/gt") || op_is(op, "darcy.op/lt") || op_is(op, "darcy.op/gte") || op_is(op, "darcy.op/lte")
        || op_is(op, "darcy.op/eq") || op_is(op, "=") || op_is(op, "<") || op_is(op, ">") || op_is(op, "<=")
        || op_is(op, ">=") {
        if n != 2 { return Some(Err(arity_error("'cmp' expects 2 arguments", span))); }
        return Some(match ctx.unify(&targs[0].ty, &targs[1].ty, args[1].span()) {
            Ok(()) => Ok(named("bool")),
            Err(err) => Err(err),
        });
    }
    if op_is(op, "darcy.core/clone") {
        if n != 1 { return Some(Err(arity_error("'clone' expects 1 argument", span))); }
        return Some(Ok(clone_ity(&targs[0].ty)));
    }
    if op_is(op, "darcy.vec/len") {
        if n != 1 { return Some(Err(arity_error("'len' expects 1 argument", span))); }
        return Some(match ensure_vec_arg(ctx, &targs[0].ty, args[0].span()) {
            Ok(_) => Ok(named("usize")),
            Err(err) => Err(err),
        });
    }
    if op_is(op, "darcy.vec/new") {
        if n != 0 { return Some(Err(arity_error("'new' expects 0 arguments", span))); }
        return Some(match ctx.fresh_var() {
            Ok(t) => Ok(InferTy::Vec(Box::new(t))),
            Err(err) => Err(err),
        });
    }
    if op_is(op, "darcy.vec/get") {
        if n != 2 { return Some(Err(arity_error("'get' expects 2 arguments", span))); }
        let elem = match ensure_vec_arg(ctx, &targs[0].ty, args[0].span()) {
            Ok(t) => t,
            Err(err) => return Some(Err(err)),
        };
        return Some(match ensure_int_arg(ctx, &targs[1].ty, args[1].span()) {
            Ok(_) => Ok(elem),
            Err(err) => Err(err),
        });
    }
    if op_is(op, "darcy.vec/set") {
        if n != 3 { return Some(Err(arity_error("'set' expects 3 arguments", span))); }
        let elem = match ensure_vec_arg(ctx, &targs[0].ty, args[0].span()) {
            Ok(t) => t,
            Err(err) => return Some(Err(err)),
        };
        if let Err(err) = ensure_int_arg(ctx, &targs[1].ty, args[1].span()) {
            return Some(Err(err));
        }
        return Some(match ctx.unify(&targs[2].ty, &elem, args[2].span()) {
            Ok(()) => Ok(InferTy::Vec(Box::new(elem))),
            Err(err) => Err(err),
        });
    }
    if op_is(op, "darcy.vec/push") {
        if n != 2 { return Some(Err(arity_error("'push' expects 2 arguments", span))); }
        let elem = match ensure_vec_arg(ctx, &targs[0].ty, args[0].span()) {
            Ok(t) => t,
            Err(err) => return Some(Err(err)),
        };
        return Some(match ctx.unify(&targs[1].ty, &elem, args[1].span()) {
            Ok(()) => Ok(InferTy::Vec(Box::new(elem))),
            Err(err) => Err(err),
        });
    }
    if op_is(op, "darcy.vec/repeat") {
        if n != 2 { return Some(Err(arity_error("'repeat' expects 2 arguments", span))); }
        let elem = clone_ity(&targs[0].ty);
        return Some(match ensure_int_arg(ctx, &targs[1].ty, args[1].span()) {
            Ok(_) => Ok(InferTy::Vec(Box::new(elem))),
            Err(err) => Err(err),
        });
    }
    if op_is(op, "darcy.vec/take") {
        if n != 2 { return Some(Err(arity_error("'take' expects 2 arguments", span))); }
        let elem = match ensure_vec_arg(ctx, &targs[0].ty, args[0].span()) {
            Ok(t) => t,
            Err(err) => return Some(Err(err)),
        };
        return Some(match ensure_int_arg(ctx, &targs[1].ty, args[1].span()) {
            Ok(_) => Ok(InferTy::Vec(Box::new(elem))),
            Err(err) => Err(err),
        });
    }
    if op_is(op, "darcy.vec/range") {
        if n != 1 { return Some(Err(arity_error("'range' expects 1 argument", span))); }
        return Some(match ensure_int_arg(ctx, &targs[0].ty, args[0].span()) {
            Ok(_) => Ok(InferTy::Vec(Box::new(named("i64")))),
            Err(err) => Err(err),
        });
    }
    if op_is(op, "darcy.vec/map") || op_is(op, "darcy.vec/fold") || op_is(op, "darcy.vec/map2") {
        return Some(infer_higher_order(ctx, op, targs, args, span));
    }
    if op_is(op, "darcy.string/split") || op_is(op, "darcy.string/join") || op_is(op, "darcy.string/len")
        || op_is(op, "darcy.string/is-empty") || op_is(op, "darcy.string/trim") {
        return Some(infer_string_op(ctx, op, targs, args, span));
    }
    if op_is(op, "darcy.option/unwrap") || op_is(op, "darcy.option/unwrap-or") || op_is(op, "darcy.result/unwrap")
        || op_is(op, "darcy.result/unwrap-or") {
        return Some(infer_unwrap(ctx, op, targs, args, span));
    }
    if op_is(op, "darcy.hash-map/len") || op_is(op, "darcy.btree-map/len") || op_is(op, "darcy.hash-map/is-empty")
        || op_is(op, "darcy.btree-map/is-empty") || op_is(op, "darcy.hash-map/get") || op_is(op, "darcy.btree-map/get")
        || op_is(op, "darcy.hash-map/contains") || op_is(op, "darcy.btree-map/contains")
        || op_is(op, "darcy.hash-map/insert") || op_is(op, "darcy.btree-map/insert")
        || op_is(op, "darcy.hash-map/remove") || op_is(op, "darcy.btree-map/remove") {
        return Some(infer_map_op(ctx, op, targs, args, span));
    }
    None
}

fn infer_math(ctx: &mut InferCtx, op: &String, targs: &Vec<InferExpr>, args: &Vec<Expr>, span: Span) -> (r: DslResult<InferTy>)
    requires
        old(ctx).wf(),
        targs@.len() == args@.len(),
    ensures
        final(ctx).wf(),
{
    let n = targs.len();
    let is_abs = op_is(op, "darcy.math/abs");
    let is_clamp = op_is(op, "darcy.math/clamp");
    if is_abs {
        if n != 1 { return Err(arity_error("'abs' expects 1 argument", span)); }
    } else if is_clamp {
        if n != 3 { return Err(arity_error("'clamp' expects 3 arguments", span)); }
        if let Err(err) = ctx.unify(&targs[0].ty, &targs[1].ty, args[1].span()) {
            return Err(err);
        }
        if let Err(err) = ctx.unify(&targs[0].ty, &targs[2].ty, args[2].span()) {
            return Err(err);
        }
    } else {
        if n != 2 { return Err(arity_error("'min/max' expects 2 arguments", span)); }
        if let Err(err) = ctx.unify(&targs[0].ty, &targs[1].ty, args[1].span()) {
            return Err(err);
        }
    }
    let resolved = ctx.resolve(&targs[0].ty);
    match &resolved {
        InferTy::Var(_) => {
            ctx.numeric_constraints.push((clone_ity(&resolved), args[0].span()));
        },
        _ => {
            let (what, expects) = if is_abs {
                ("cannot infer abs argument type", "abs expects numeric type")
            } else if is_clamp {
                ("cannot infer clamp argument type", "clamp expects numeric type")
            } else {
                ("cannot infer min/max argument type", "min/max expects numeric type")
            };
            let concrete = match infer_to_ty(ctx, &resolved) {
                Some(t) => t,
                None => return Err(Diag::new(what).with_span(args[0].span())),
            };
            if !is_numeric(&concrete) {
                return Err(Diag::new(expects).with_span(args[0].span()));
            }
        },
    }
    if is_abs {
        Ok(clone_ity(&targs[0].ty))
    } else {
        Ok(resolved)
    }
}

fn infer_higher_order(ctx: &mut InferCtx, op: &String, targs: &Vec<InferExpr>, args: &Vec<Expr>, span: Span) -> (r: DslResult<InferTy>)
    requires
        old(ctx).wf(),
        targs@.len() == args@.len(),
    ensures
        final(ctx).wf(),
{
    let n = targs.len();
    if op_is(op, "darcy.vec/map") {
        if n != 2 { return Err(arity_error("'map' expects 2 arguments", span)); }
        let elem = match ensure_vec_arg(ctx, &targs[1].ty, args[1].span()) {
            Ok(t) => t,
            Err(err) => return Err(err),
        };
        let out_elem = match ctx.fresh_var() {
            Ok(t) => t,
            Err(err) => return Err(err),
        };
        let mut ps: Vec<InferTy> = Vec::new();
        ps.push(elem);
        let fn_ty = InferTy::Fn(ps, Box::new(clone_ity(&out_elem)));
        return match ctx.unify(&targs[0].ty, &fn_ty, args[0].span()) {
            Ok(()) => Ok(InferTy::Vec(Box::new(out_elem))),
            Err(err) => Err(err),
        };
    }
    if op_is(op, "darcy.vec/fold") {
        if n != 3 { return Err(arity_error("'fold' expects 3 arguments", span)); }
        let elem = match ensure_vec_arg(ctx, &targs[2].ty, args[2].span()) {
            Ok(t) => t,
            Err(err) => return Err(err),
        };
        let acc = clone_ity(&targs[1].ty);
        let mut ps: Vec<InferTy> = Vec::new();
        ps.push(clone_ity(&acc));
        ps.push(elem);
        let fn_ty = InferTy::Fn(ps, Box::new(clone_ity(&acc)));
        return match ctx.unify(&targs[0].ty, &fn_ty, args[0].span()) {
            Ok(()) => Ok(acc),
            Err(err) => Err(err),
        };
    }
    if n != 3 { return Err(arity_error("'map2' expects 3 arguments", span)); }
    let left = match ensure_vec_arg(ctx, &targs[1].ty, args[1].span()) {
        Ok(t) => t,
        Err(err) => return Err(err),
    };
    let right = match ensure_vec_arg(ctx, &targs[2].ty, args[2].span()) {
        Ok(t) => t,
        Err(err) => return Err(err),
    };
    let out_elem = match ctx.fresh_var() {
        Ok(t) => t,
        Err(err) => return Err(err),
    };
    let mut ps: Vec<InferTy> = Vec::new();
    ps.push(left);
    ps.push(right);
    let fn_ty = InferTy::Fn(ps, Box::new(clone_ity(&out_elem)));
    match ctx.unify(&targs[0].ty, &fn_ty, args[0].span()) {
        Ok(()) => Ok(InferTy::Vec(Box::new(out_elem))),
        Err(err) => Err(err),
    }
}

fn infer_string_op(ctx: &mut InferCtx, op: &String, targs: &Vec<InferExpr>, args: &Vec<Expr>, span: Span) -> (r: DslResult<InferTy>)
    requires
        old(ctx).wf(),
        targs@.len() == args@.len(),
    ensures
        final(ctx).wf(),
{
    let n = targs.len();
    let str_ty = named("string");
    if op_is(op, "darcy.string/split") {
        if n != 2 { return Err(arity_error("'split' expects 2 arguments", span)); }
        if let Err(err) = ctx.unify(&targs[0].ty, &str_ty, args[0].span()) {
            return Err(err);
        }
        if let Err(err) = ctx.unify(&targs[1].ty, &str_ty, args[1].span()) {
            return Err(err);
        }
        return Ok(InferTy::Vec(Box::new(str_ty)));
    }
    if op_is(op, "darcy.string/join") {
        if n != 2 { return Err(arity_error("'join' expects 2 arguments", span)); }
        let elem = match ensure_vec_arg(ctx, &targs[0].ty, args[0].span()) {
            Ok(t) => t,
            Err(err) => return Err(err),
        };
        if let Err(err) = ctx.unify(&elem, &str_ty, args[0].span()) {
            return Err(err);
        }
        if let Err(err) = ctx.unify(&targs[1].ty, &str_ty, args[1].span()) {
            return Err(err);
        }
        return Ok(str_ty);
    }
    let (msg, out) = if op_is(op, "darcy.string/len") {
        ("'len' expects 1 argument", named("usize"))
    } else if op_is(op, "darcy.string/is-empty") {
        ("'is-empty' expects 1 argument", named("bool"))
    } else {
        ("'trim' expects 1 argument", named("string"))
    };
    if n != 1 { return Err(arity_error(msg, span)); }
    match ctx.unify(&targs[0].ty, &str_ty, args[0].span()) {
        Ok(()) => Ok(out),
        Err(err) => Err(err),
    }
}

fn infer_unwrap(ctx: &mut InferCtx, op: &String, targs: &Vec<InferExpr>, args: &Vec<Expr>, span: Span) -> (r: DslResult<InferTy>)
    requires
        old(ctx).wf(),
        targs@.len() == args@.len(),
    ensures
        final(ctx).wf(),
{
    let n = targs.len();
    let is_option = op_is(op, "darcy.option/unwrap") || op_is(op, "darcy.option/unwrap-or");
    let with_fallback = op_is(op, "darcy.option/unwrap-or") || op_is(op, "darcy.result/unwrap-or");
    if with_fallback {
        if n != 2 { return Err(arity_error("'unwrap-or' expects 2 arguments", span)); }
    } else {
        if n != 1 { return Err(arity_error("'unwrap' expects 1 argument", span)); }
    }
    let out_ty = if with_fallback {
        clone_ity(&targs[1].ty)
    } else {
        match ctx.fresh_var() {
            Ok(t) => t,
            Err(err) => return Err(err),
        }
    };
    let target = if is_option {
        InferTy::Option(Box::new(clone_ity(&out_ty)))
    } else {
        let err_ty = match ctx.fresh_var() {
            Ok(t) => t,
            Err(err) => return Err(err),
        };
        InferTy::Result(Box::new(clone_ity(&out_ty)), Box::new(err_ty))
    };
    match ctx.unify(&targs[0].ty, &target, args[0].span()) {
        Ok(()) => Ok(out_ty),
        Err(err) => Err(err),
    }
}

fn infer_map_op(ctx: &mut InferCtx, op: &String, targs: &Vec<InferExpr>, args: &Vec<Expr>, span: Span) -> (r: DslResult<InferTy>)
    requires
        old(ctx).wf(),
        targs@.len() == args@.len(),
    ensures
        final(ctx).wf(),
{
    let n = targs.len();
    let kind = if crate::text::string_starts_with(op, "darcy.hash-map/") { MapKind::Hash } else { MapKind::BTree };
    let is_len = op_is(op, "darcy.hash-map/len") || op_is(op, "darcy.btree-map/len");
    let is_empty = op_is(op, "darcy.hash-map/is-empty") || op_is(op, "darcy.btree-map/is-empty");
    let is_get = op_is(op, "darcy.hash-map/get") || op_is(op, "darcy.btree-map/get");
    let is_contains = op_is(op, "darcy.hash-map/contains") || op_is(op, "darcy.btree-map/contains");
    let is_insert = op_is(op, "darcy.hash-map/insert") || op_is(op, "darcy.btree-map/insert");
    let (want, msg) = if is_len {
        (1usize, "'len' expects 1 argument")
    } else if is_empty {
        (1usize, "'is-empty' expects 1 argument")
    } else if is_get {
        (2usize, "'get' expects 2 arguments")
    } else if is_contains {
        (2usize, "'contains' expects 2 arguments")
    } else if is_insert {
        (3usize, "'insert' expects 3 arguments")
    } else {
        (2usize, "'remove' expects 2 arguments")
    };
    if n != want {
        return Err(arity_error(msg, span));
    }
    let (k, v) = match ensure_map_arg(ctx, &targs[0].ty, kind, args[0].span()) {
        Ok(kv) => kv,
        Err(err) => return Err(err),
    };
    if is_len {
        return Ok(named("usize"));
    }
    if is_empty {
        return Ok(named("bool"));
    }
    if let Err(err) = ctx.unify(&k, &targs[1].ty, args[1].span()) {
        return Err(err);
    }
    if is_get {
        return Ok(InferTy::Option(Box::new(v)));
    }
    if is_contains {
        return Ok(named("bool"));
    }
    if is_insert {
        if let Err(err) = ctx.unify(&v, &targs[2].ty, args[2].span()) {
            return Err(err);
        }
    }
    Ok(InferTy::MapOf(kind, Box::new(k), Box::new(v)))
}

/// The arities of `sigs` in decimal, separated by ", ".
pub open spec fn arity_text(sigs: Seq<InferFnSig>) -> Seq<char>
    decreases sigs.len(),
{
    if sigs.len() == 0 {
        seq![]
    } else if sigs.len() == 1 {
        crate::text::decimal(sigs[0].params@.len())
    } else {
        arity_text(sigs.drop_last()) + ", "@ + crate::text::decimal(sigs.last().params@.len())
    }
}

fn arity_list(sigs: &Vec<InferFnSig>) -> (r: String)
    ensures
        r@ == arity_text(sigs@),
{
    let mut s = String::new();
    let mut i: usize = 0;
    while i < sigs.len()
        invariant
            i <= sigs@.len(),
            s@ == arity_text(sigs@.take(i as int)),
        decreases sigs@.len() - i,
    {
        proof {
            assert(sigs@.take(i + 1).drop_last() =~= sigs@.take(i as int));
        }
        if i > 0 {
            s.append(", ");
        }
        let d = usize_to_string(sigs[i].params.len());
        s.append(d.as_str());
        proof {
            if i == 0 {
                assert(s@ =~= crate::text::decimal(sigs@[0].params@.len()));
            }
        }
        i = i + 1;
    }
    proof {
        assert(sigs@.take(sigs@.len() as int) =~= sigs@);
    }
    s
}

/// The message for a call with no overload of its arity.
pub open spec fn no_overload_message(name: Seq<char>, arity: nat, available: Seq<char>) -> Seq<char> {
    "function '"@ + name + "' has no overload with arity "@ + crate::text::decimal(arity) + "; available arities: "@
        + available
}

/// A call: a map constructor, a builtin, a record or variant constructor,
/// a user function (by arity), or an arithmetic operator.
fn infer_call(sc: &Scope, ctx: &mut InferCtx, vars: &Vec<(String, InferTy)>, loops: &mut Vec<LoopFrame>, e: &Expr, op: &String, args: &Vec<Expr>, span: Span) -> (r: DslResult<InferExpr>)
    requires
        old(ctx).wf(),
    ensures
        final(ctx).wf(),
        final(loops)@.len() == old(loops)@.len(),
    decreases args, 1nat,
{
    if op_is(op, "darcy.hash-map/new") || op_is(op, "darcy.btree-map/new") {
        let kind = if op_is(op, "darcy.hash-map/new") { MapKind::Hash } else { MapKind::BTree };
        if args.len() == 0 {
            return Err(Diag::new("cannot infer map type from empty literal; add hash-map<K,V> annotation").with_span(span));
        }
        let (key_ty, val_ty, casts, types) = match infer_ctor_entries(sc, ctx, vars, loops, args) {
            Ok(x) => x,
            Err(err) => return Err(err),
        };
        let key_ty = match key_ty {
            Some(t) => t,
            None => match ctx.fresh_var() {
                Ok(t) => t,
                Err(err) => return Err(err),
            },
        };
        let val_ty = match val_ty {
            Some(t) => t,
            None => match ctx.fresh_var() {
                Ok(t) => t,
                Err(err) => return Err(err),
            },
        };
        return Ok(done(e, InferTy::MapOf(kind, Box::new(key_ty), Box::new(val_ty)), span, casts, types));
    }
    let mut targs = match infer_args(sc, ctx, vars, loops, args) {
        Ok(t) => t,
        Err(err) => return Err(err),
    };
    let mut casts: Vec<CastHint> = Vec::new();
    let mut types: Vec<(SpanKey, InferTy)> = Vec::new();
    let out_ty = match infer_builtin(ctx, op, &targs, args, span) {
        Some(Ok(t)) => t,
        Some(Err(err)) => return Err(err),
        None => match infer_user_call(sc, ctx, op, &targs, args, span) {
            Ok((t, mut extra)) => {
                casts.append(&mut extra);
                t
            },
            Err(err) => return Err(err),
        },
    };
    let mut extra = casts;
    let mut casts2: Vec<CastHint> = Vec::new();
    absorb_all(&mut casts2, &mut types, &mut targs);
    casts2.append(&mut extra);
    Ok(done(e, out_ty, span, casts2, types))
}

/// Record and variant constructors, user functions by arity, and the
/// arithmetic, `mod` and bitwise operators.
fn infer_user_call(sc: &Scope, ctx: &mut InferCtx, op: &String, targs: &Vec<InferExpr>, args: &Vec<Expr>, span: Span) -> (r: DslResult<(InferTy, Vec<CastHint>)>)
    requires
        old(ctx).wf(),
        targs@.len() == args@.len(),
    ensures
        final(ctx).wf(),
{
    let n = targs.len();
    if is_struct(sc.env, op) {
        let fields = match find_fields(&sc.fields.structs, op) {
            Some(f) => f,
            None => return Err(Diag::new("internal error: missing struct inference").with_span(span)),
        };
        if n != fields.len() {
            let d = usize_to_string(fields.len());
            let msg = concat5("struct '", op.as_str(), "' expects ", d.as_str(), " fields");
            return Err(Diag::from_message(msg).with_span(span));
        }
        return match unify_args_with_fields(ctx, targs, args, fields) {
            Ok(()) => Ok((InferTy::Named(copy(op)), Vec::new())),
            Err(err) => Err(err),
        };
    }
    if let Some(union_name) = variant_union(sc.env, op) {
        let fields = match find_fields(&sc.fields.variants, op) {
            Some(f) => f,
            None => return Err(Diag::new("internal error: missing variant inference").with_span(span)),
        };
        if n != fields.len() {
            let d = usize_to_string(fields.len());
            let msg = concat5("variant '", op.as_str(), "' expects ", d.as_str(), " arguments");
            return Err(Diag::from_message(msg).with_span(span));
        }
        return match unify_args_with_fields(ctx, targs, args, fields) {
            Ok(()) => Ok((InferTy::Named(union_name), Vec::new())),
            Err(err) => Err(err),
        };
    }
    if let Some(base_sig) = sc.fns.get_arity(op.as_str(), n) {
        let is_current = match &sc.current_fn {
            Some(c) => *c == *op,
            None => false,
        };
        let sig = if is_current {
            InferFnSig { params: crate::infer::clone_itys(&base_sig.params), ret: clone_ity(&base_sig.ret) }
        } else {
            match instantiate_sig(ctx, base_sig) {
                Ok(s) => s,
                Err(err) => return Err(err),
            }
        };
        let mut i: usize = 0;
        while i < n
            invariant
                n == targs@.len(),
                targs@.len() == args@.len(),
                i <= n,
                sig.params@.len() == n,
                ctx.wf(),
            decreases n - i,
        {
            if let Err(err) = ctx.unify(&targs[i].ty, &sig.params[i], args[i].span()) {
                return Err(err);
            }
            i = i + 1;
        }
        return Ok((sig.ret, Vec::new()));
    }
    if let Some(sigs) = sc.fns.get(op.as_str()) {
        let list = arity_list(sigs);
        let d = usize_to_string(n);
        let msg = concat5("function '", op.as_str(), "' has no overload with arity ", d.as_str(), "; available arities: ");
        let msg = concat2(msg.as_str(), list.as_str());
        return Err(Diag::from_message(msg).with_span(span));
    }
    let arith = op_is(op, "+") || op_is(op, "-") || op_is(op, "*") || op_is(op, "/") || op_is(op, "darcy.op/add")
        || op_is(op, "darcy.op/sub") || op_is(op, "darcy.op/mul") || op_is(op, "darcy.op/div");
    let modulo = op_is(op, "mod") || op_is(op, "darcy.op/mod");
    let bitwise = op_is(op, "&") || op_is(op, "|") || op_is(op, "darcy.op/bit-and") || op_is(op, "darcy.op/bit-or");
    if arith || modulo || bitwise {
        if n != 2 {
            if arith {
                let msg = concat3("'", op.as_str(), "' expects 2 arguments");
                return Err(Diag::from_message(msg).with_span(span));
            }
            return Err(arity_error(if modulo { "'mod' expects 2 arguments" } else { "'bitwise' expects 2 arguments" }, span));
        }
        return infer_binop(ctx, &targs[0].ty, &targs[1].ty, targs[0].expr.span(), targs[1].expr.span(), span, !arith);
    }
    let msg = concat3("unknown operator '", op.as_str(), "'");
    Err(Diag::from_message(msg).with_span(span))
}

fn unify_args_with_fields(ctx: &mut InferCtx, targs: &Vec<InferExpr>, args: &Vec<Expr>, fields: &Vec<FieldInfer>) -> (r: DslResult<()>)
    requires
        old(ctx).wf(),
        targs@.len() == args@.len(),
        targs@.len() == fields@.len(),
    ensures
        final(ctx).wf(),
{
    let mut i: usize = 0;
    while i < targs.len()
        invariant
            targs@.len() == args@.len(),
            targs@.len() == fields@.len(),
            i <= targs@.len(),
            ctx.wf(),
        decreases targs@.len() - i,
    {
        if let Err(err) = ctx.unify(&targs[i].ty, &fields[i].ty, args[i].span()) {
            return Err(err);
        }
        i = i + 1;
    }
    Ok(())
}

/// The entries of a map constructor call: each `[key value]` (or a pair).
fn infer_ctor_entries(sc: &Scope, ctx: &mut InferCtx, vars: &Vec<(String, InferTy)>, loops: &mut Vec<LoopFrame>, args: &Vec<Expr>) -> (r: DslResult<(Option<InferTy>, Option<InferTy>, Vec<CastHint>, Vec<(SpanKey, InferTy)>)>)
    requires
        old(ctx).wf(),
    ensures
        final(ctx).wf(),
        final(loops)@.len() == old(loops)@.len(),
    decreases args, 0nat,
{
    let mut key_ty: Option<InferTy> = None;
    let mut val_ty: Option<InferTy> = None;
    let mut casts: Vec<CastHint> = Vec::new();
    let mut types: Vec<(SpanKey, InferTy)> = Vec::new();
    let mut i: usize = 0;
    while i < args.len()
        invariant
            i <= args@.len(),
            ctx.wf(),
            loops@.len() == old(loops)@.len(),
        decreases args@.len() - i,
    {
        let entry = &args[i];
        let (tk, tv, ksp, vsp) = match entry {
            Expr::Pair { key, val, .. } => {
                let tk = match infer_expr(sc, ctx, vars, loops, key) {
                    Ok(t) => t,
                    Err(err) => return Err(err),
                };
                let tv = match infer_expr(sc, ctx, vars, loops, val) {
                    Ok(t) => t,
                    Err(err) => return Err(err),
                };
                (tk, tv, key.span(), val.span())
            },
            Expr::VecLit { elems, .. } => {
                if elems.len() != 2 {
                    return Err(Diag::new("map entry must be [key value]").with_span(entry.span()));
                }
                match infer_pair_elems(sc, ctx, vars, loops, elems) {
                    Ok(x) => x,
                    Err(err) => return Err(err),
                }
            },
            _ => return Err(Diag::new("map entry must be [key value]").with_span(entry.span())),
        };
        let mut tk = tk;
        let mut tv = tv;
        absorb(&mut casts, &mut types, &mut tk);
        absorb(&mut casts, &mut types, &mut tv);
        match &key_ty {
            Some(cur) => {
                if let Err(err) = ctx.unify(cur, &tk.ty, ksp) {
                    return Err(err);
                }
            },
            None => {},
        }
        if key_ty.is_none() {
            key_ty = Some(clone_ity(&tk.ty));
        }
        match &val_ty {
            Some(cur) => {
                if let Err(err) = ctx.unify(cur, &tv.ty, vsp) {
                    return Err(err);
                }
            },
            None => {},
        }
        if val_ty.is_none() {
            val_ty = Some(clone_ity(&tv.ty));
        }
        i = i + 1;
    }
    Ok((key_ty, val_ty, casts, types))
}

fn infer_pair_elems(sc: &Scope, ctx: &mut InferCtx, vars: &Vec<(String, InferTy)>, loops: &mut Vec<LoopFrame>, elems: &Vec<Expr>) -> (r: DslResult<(InferExpr, InferExpr, Span, Span)>)
    requires
        old(ctx).wf(),
        elems@.len() == 2,
    ensures
        final(ctx).wf(),
        final(loops)@.len() == old(loops)@.len(),
    decreases elems, 0nat,
{
    let tk = match infer_expr(sc, ctx, vars, loops, &elems[0]) {
        Ok(t) => t,
        Err(err) => return Err(err),
    };
    let tv = match infer_expr(sc, ctx, vars, loops, &elems[1]) {
        Ok(t) => t,
        Err(err) => return Err(err),
    };
    Ok((tk, tv, elems[0].span(), elems[1].span()))
}

} // verus!
