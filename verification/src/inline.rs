//! Expansion of `defin` functions: each call of an inline function is
//! replaced by its body with the arguments substituted for the parameters.

use vstd::prelude::*;
use crate::ast::{
    calls_any, calls_any_of, bindings_call, arms_call, entries_call, lemma_calls_any_of,
    lemma_bindings_call, lemma_arms_call, lemma_entries_call, lemma_calls_any_of_each, lemma_bindings_call_each,
    lemma_arms_call_each, lemma_entries_call_each, expr_same, opt_ty_same, pat_same, clone_params, clone_pat, clone_expr, clone_range, Def, Expr, FnDef,
    InlineDef, Iterable, LetBinding, MatchArm, RangeExpr, Top,
};
use crate::diag::{Diag, DslResult};
use crate::text::{concat5, copy, usize_to_string};

verus! {

/// The measure that bounds how deeply inline calls expand inside one
/// another. No expansion that the call stack can hold comes near it, so in
/// effect expansion is not bounded.
pub const INLINE_DEPTH_LIMIT: usize = 4294967295;

fn clone_opt_ty(t: &Option<crate::ast::Ty>) -> (r: Option<crate::ast::Ty>)
    ensures
        opt_ty_same(r, *t),
{
    match t {
        Some(t) => Some(crate::ast::clone_ty(t)),
        None => None,
    }
}

/// `k` is the first entry of `map` for the parameter `name`.
pub open spec fn first_param(map: Seq<(String, Expr)>, name: Seq<char>, k: int) -> bool {
    &&& 0 <= k < map.len()
    &&& map[k].0@ == name
    &&& forall|j: int| 0 <= j < k ==> (#[trigger] map[j]).0@ != name
}

/// The argument that replaces the variable `name`: none where `name` is
/// hidden or no parameter.
pub open spec fn subst_arg(map: Seq<(String, Expr)>, hidden: Seq<Seq<char>>, name: Seq<char>) -> Option<Expr> {
    if !hidden.contains(name) && exists|k: int| first_param(map, name, k) {
        Some(map[choose|k: int| first_param(map, name, k)].1)
    } else {
        None
    }
}

/// The Rust names that a `let` binds, in order.
pub open spec fn binding_names(bs: Seq<LetBinding>) -> Seq<Seq<char>> {
    bs.map_values(|b: LetBinding| b.rust_name@)
}

/// The Rust names of lambda parameters, in order.
pub open spec fn param_names(ps: Seq<crate::ast::Param>) -> Seq<Seq<char>> {
    ps.map_values(|p: crate::ast::Param| p.rust_name@)
}

/// `r` is `e` with each variable that is a parameter of `map` and not
/// hidden replaced by its argument. A `let` hides, from its later values
/// and its body, the names bound before; a lambda hides its parameters
/// from its body. (An empty name is hidden along with them.)
pub open spec fn subst_rel(r: Expr, e: Expr, map: Seq<(String, Expr)>, hidden: Seq<Seq<char>>) -> bool
    decreases e,
{
    match (e, r) {
        (Expr::Var(name, _), _) => match subst_arg(map, hidden, name@) {
            Some(x) => expr_same(r, x),
            None => expr_same(r, e),
        },
        (Expr::Ascribe { expr: x, ann: t1, span: s1 }, Expr::Ascribe { expr: y, ann: t2, span: s2 }) =>
            subst_rel(*y, *x, map, hidden) && crate::ast::ty_same(t2, t1) && s1 == s2,
        (Expr::Cast { expr: x, ann: t1, span: s1 }, Expr::Cast { expr: y, ann: t2, span: s2 }) =>
            subst_rel(*y, *x, map, hidden) && crate::ast::ty_same(t2, t1) && s1 == s2,
        (Expr::VecLit { elems: x, span: s1, ann: t1 }, Expr::VecLit { elems: y, span: s2, ann: t2 }) =>
            s1 == s2 && opt_ty_same(t2, t1) && x@.len() == y@.len()
            && forall|i: int| 0 <= i < x@.len() ==> subst_rel(y@[i], #[trigger] x@[i], map, hidden),
        (Expr::SetLit { elems: x, span: s1, ann: t1 }, Expr::SetLit { elems: y, span: s2, ann: t2 }) =>
            s1 == s2 && opt_ty_same(t2, t1) && x@.len() == y@.len()
            && forall|i: int| 0 <= i < x@.len() ==> subst_rel(y@[i], #[trigger] x@[i], map, hidden),
        (Expr::Do { exprs: x, span: s1 }, Expr::Do { exprs: y, span: s2 }) =>
            s1 == s2 && x@.len() == y@.len() && forall|i: int| 0 <= i < x@.len() ==> subst_rel(y@[i], #[trigger] x@[i], map, hidden),
        (Expr::Call { op: o1, args: x, span: s1 }, Expr::Call { op: o2, args: y, span: s2 }) =>
            o1@ == o2@ && s1 == s2 && x@.len() == y@.len()
            && forall|i: int| 0 <= i < x@.len() ==> subst_rel(y@[i], #[trigger] x@[i], map, hidden),
        (Expr::Pair { key: k1, val: v1, span: s1 }, Expr::Pair { key: k2, val: v2, span: s2 }) =>
            subst_rel(*k2, *k1, map, hidden) && subst_rel(*v2, *v1, map, hidden) && s1 == s2,
        (Expr::Let { bindings: x, body: b1, span: s1 }, Expr::Let { bindings: y, body: b2, span: s2 }) =>
            s1 == s2 && x@.len() == y@.len()
            && subst_rel(*b2, *b1, map, hidden.push(Seq::empty()) + binding_names(x@))
            && forall|i: int| 0 <= i < x@.len() ==> {
                &&& (#[trigger] x@[i]).name@ == y@[i].name@
                &&& x@[i].rust_name@ == y@[i].rust_name@
                &&& opt_ty_same(y@[i].ann, x@[i].ann)
                &&& subst_rel(y@[i].expr, x@[i].expr, map, hidden.push(Seq::empty()) + binding_names(x@.take(i)))
                &&& x@[i].span == y@[i].span
            },
        (Expr::Lambda { params: p1, body: b1, span: s1 }, Expr::Lambda { params: p2, body: b2, span: s2 }) =>
            subst_rel(*b2, *b1, map, hidden.push(Seq::empty()) + param_names(p1@)) && s1 == s2 && p1@.len() == p2@.len()
            && forall|i: int| 0 <= i < p1@.len() ==> crate::ast::param_same(p2@[i], #[trigger] p1@[i]),
        (Expr::CallDyn { func: f1, args: x, span: s1 }, Expr::CallDyn { func: f2, args: y, span: s2 }) =>
            subst_rel(*f2, *f1, map, hidden) && s1 == s2 && x@.len() == y@.len()
            && forall|i: int| 0 <= i < x@.len() ==> subst_rel(y@[i], #[trigger] x@[i], map, hidden),
        (Expr::MethodCall { base: b1, method: m1, args: x, span: s1 }, Expr::MethodCall { base: b2, method: m2, args: y, span: s2 }) =>
            subst_rel(*b2, *b1, map, hidden) && m1@ == m2@ && s1 == s2 && x@.len() == y@.len()
            && forall|i: int| 0 <= i < x@.len() ==> subst_rel(y@[i], #[trigger] x@[i], map, hidden),
        (Expr::If { cond: c1, then_br: t1, else_br: e1, span: s1 }, Expr::If { cond: c2, then_br: t2, else_br: e2, span: s2 }) =>
            subst_rel(*c2, *c1, map, hidden) && subst_rel(*t2, *t1, map, hidden) && s1 == s2 && match (e1, e2) {
                (Some(x), Some(y)) => subst_rel(*y, *x, map, hidden),
                (None, None) => true,
                _ => false,
            },
        (Expr::Loop { body: b1, span: s1 }, Expr::Loop { body: b2, span: s2 }) => subst_rel(*b2, *b1, map, hidden) && s1 == s2,
        (Expr::While { cond: c1, body: b1, span: s1 }, Expr::While { cond: c2, body: b2, span: s2 }) =>
            subst_rel(*c2, *c1, map, hidden) && subst_rel(*b2, *b1, map, hidden) && s1 == s2,
        (Expr::Assign { name: n1, expr: x, span: s1 }, Expr::Assign { name: n2, expr: y, span: s2 }) =>
            n1@ == n2@ && subst_rel(*y, *x, map, hidden) && s1 == s2,
        (Expr::For { var: v1, iter: i1, body: b1, span: s1 }, Expr::For { var: v2, iter: i2, body: b2, span: s2 }) =>
            v1@ == v2@ && subst_rel(*b2, *b1, map, hidden) && s1 == s2 && match (i1, i2) {
                (Iterable::Range(r1), Iterable::Range(r2)) => subst_rel(*r2.start, *r1.start, map, hidden)
                    && subst_rel(*r2.end, *r1.end, map, hidden) && r1.inclusive == r2.inclusive && r1.span == r2.span
                    && match (r1.step, r2.step) {
                        (Some(x), Some(y)) => subst_rel(*y, *x, map, hidden),
                        (None, None) => true,
                        _ => false,
                    },
                (Iterable::Expr(x), Iterable::Expr(y)) => subst_rel(*y, *x, map, hidden),
                _ => false,
            },
        (Expr::Break { value: v1, span: s1 }, Expr::Break { value: v2, span: s2 }) => s1 == s2 && match (v1, v2) {
            (Some(x), Some(y)) => subst_rel(*y, *x, map, hidden),
            (None, None) => true,
            _ => false,
        },
        (Expr::Field { base: b1, field: f1, span: s1 }, Expr::Field { base: b2, field: f2, span: s2 }) =>
            subst_rel(*b2, *b1, map, hidden) && f1@ == f2@ && s1 == s2,
        (Expr::Match { scrutinee: c1, arms: x, span: s1 }, Expr::Match { scrutinee: c2, arms: y, span: s2 }) =>
            subst_rel(*c2, *c1, map, hidden) && s1 == s2 && x@.len() == y@.len() && forall|i: int| 0 <= i < x@.len() ==>
                pat_same(y@[i].pat, (#[trigger] x@[i]).pat) && subst_rel(y@[i].body, x@[i].body, map, hidden) && x@[i].span == y@[i].span,
        (Expr::MapLit { kind: k1, entries: x, span: s1, ann: t1 }, Expr::MapLit { kind: k2, entries: y, span: s2, ann: t2 }) =>
            k1 == k2 && s1 == s2 && x@.len() == y@.len()
            && (forall|i: int| 0 <= i < x@.len() ==> subst_rel(y@[i].0, (#[trigger] x@[i]).0, map, hidden)
                && subst_rel(y@[i].1, x@[i].1, map, hidden))
            && match (t1, t2) {
                (Some((a1, b1)), Some((a2, b2))) => crate::ast::ty_same(a2, a1) && crate::ast::ty_same(b2, b1),
                (None, None) => true,
                _ => false,
            },
        _ => crate::ast::is_leaf(e) && !(e is Var) && expr_same(r, e),
    }
}

/// The argument substituted for a variable: none when the name is
/// shadowed (in `hidden`) or not a parameter.
fn subst_lookup(map: &Vec<(String, Expr)>, hidden: &Vec<String>, name: &String) -> (r: Option<Expr>)
    ensures
        r is Some <==> !crate::modules::listed(hidden@, name@)
            && exists|k: int| 0 <= k < map@.len() && (#[trigger] map@[k]).0@ == name@,
        match (r, subst_arg(map@, crate::modules::names_view(hidden@), name@)) {
            (Some(x), Some(y)) => expr_same(x, y),
            (None, None) => true,
            _ => false,
        },
{
    let mut i: usize = 0;
    while i < hidden.len()
        invariant
            i <= hidden@.len(),
            forall|j: int| 0 <= j < i ==> (#[trigger] hidden@[j])@ != name@,
        decreases hidden@.len() - i,
    {
        if hidden[i] == *name {
            assert(crate::modules::names_view(hidden@)[i as int] == name@);
            return None;
        }
        i = i + 1;
    }
    proof {
        if crate::modules::names_view(hidden@).contains(name@) {
            let j = choose|j: int| 0 <= j < crate::modules::names_view(hidden@).len()
                && crate::modules::names_view(hidden@)[j] == name@;
            assert(hidden@[j]@ == name@);
        }
    }
    let mut k: usize = 0;
    while k < map.len()
        invariant
            k <= map@.len(),
            !crate::modules::listed(hidden@, name@),
            !crate::modules::names_view(hidden@).contains(name@),
            forall|j: int| 0 <= j < k ==> (#[trigger] map@[j]).0@ != name@,
        decreases map@.len() - k,
    {
        if map[k].0 == *name {
            proof {
                assert(first_param(map@, name@, k as int));
                assert forall|k2: int| #[trigger] first_param(map@, name@, k2) implies k2 == k by {
                    if k2 < k {
                        assert(map@[k2].0@ != name@);
                    } else if k < k2 {
                        assert(map@[k as int].0@ != name@);
                    }
                }
            }
            return Some(clone_expr(&map[k].1));
        }
        k = k + 1;
    }
    proof {
        assert forall|k2: int| !#[trigger] first_param(map@, name@, k2) by {
            if first_param(map@, name@, k2) {
                assert(map@[k2].0@ == name@);
            }
        }
    }
    None
}

fn with_hidden(hidden: &Vec<String>, name: &String) -> (r: Vec<String>)
    ensures
        crate::modules::names_view(r@) == crate::modules::names_view(hidden@).push(name@),
{
    let mut out: Vec<String> = Vec::new();
    let mut i: usize = 0;
    while i < hidden.len()
        invariant
            i <= hidden@.len(),
            out@.len() == i,
            forall|j: int| 0 <= j < i ==> (#[trigger] out@[j])@ == hidden@[j]@,
        decreases hidden@.len() - i,
    {
        out.push(copy(&hidden[i]));
        i = i + 1;
    }
    out.push(copy(name));
    proof {
        assert(crate::modules::names_view(out@) =~= crate::modules::names_view(hidden@).push(name@));
    }
    out
}

/// `expr` with each free variable that is a parameter replaced by its
/// argument; `let` bindings and lambda parameters hide the names they bind.
pub fn inline_subst_local(expr: &Expr, map: &Vec<(String, Expr)>, hidden: &Vec<String>) -> (r: Expr)
    ensures
        subst_rel(r, *expr, map@, crate::modules::names_view(hidden@)),
    decreases expr,
{
    match expr {
        Expr::Var(name, _) => match subst_lookup(map, hidden, name) {
            Some(e) => e,
            None => clone_expr(expr),
        },
        Expr::Ascribe { expr: inner, ann, span } => Expr::Ascribe {
            expr: Box::new(inline_subst_local(inner, map, hidden)),
            ann: crate::ast::clone_ty(ann),
            span: *span,
        },
        Expr::Cast { expr: inner, ann, span } => Expr::Cast {
            expr: Box::new(inline_subst_local(inner, map, hidden)),
            ann: crate::ast::clone_ty(ann),
            span: *span,
        },
        Expr::Int(..) | Expr::Float(..) | Expr::Str(..) | Expr::Bool(..) | Expr::Unit(..)
        | Expr::SymbolLit(..) | Expr::Continue { .. } => clone_expr(expr),
        Expr::Pair { key, val, span } => Expr::Pair {
            key: Box::new(inline_subst_local(key, map, hidden)),
            val: Box::new(inline_subst_local(val, map, hidden)),
            span: *span,
        },
        Expr::Let { bindings, body, span } => {
            let (out, shadowed) = subst_bindings(bindings, map, hidden);
            proof {
                assert(bindings@.take(bindings@.len() as int) =~= bindings@);
            }
            Expr::Let { bindings: out, body: Box::new(inline_subst_local(body, map, &shadowed)), span: *span }
        },
        Expr::Lambda { params, body, span } => {
            let ghost hv = crate::modules::names_view(hidden@);
            let mut shadowed = with_hidden(hidden, &String::new());
            let mut i: usize = 0;
            proof {
                assert(param_names(params@.take(0)) =~= Seq::<Seq<char>>::empty());
                assert(crate::modules::names_view(shadowed@) =~= hv.push(Seq::empty()) + param_names(params@.take(0)));
            }
            while i < params.len()
                invariant
                    i <= params@.len(),
                    crate::modules::names_view(shadowed@) == hv.push(Seq::empty()) + param_names(params@.take(i as int)),
                decreases params@.len() - i,
            {
                let ghost prev = shadowed@;
                shadowed.push(copy(&params[i].rust_name));
                proof {
                    assert(param_names(params@.take(i + 1)) =~= param_names(params@.take(i as int)).push(params@[i as int].rust_name@));
                    assert(crate::modules::names_view(shadowed@) =~= crate::modules::names_view(prev).push(params@[i as int].rust_name@));
                    assert(crate::modules::names_view(shadowed@) =~= hv.push(Seq::empty()) + param_names(params@.take(i + 1)));
                }
                i = i + 1;
            }
            proof {
                assert(params@.take(params@.len() as int) =~= params@);
            }
            Expr::Lambda { params: clone_params(params), body: Box::new(inline_subst_local(body, map, &shadowed)), span: *span }
        },
        Expr::Do { exprs, span } => Expr::Do { exprs: subst_all(exprs, map, hidden), span: *span },
        Expr::If { cond, then_br, else_br, span } => Expr::If {
            cond: Box::new(inline_subst_local(cond, map, hidden)),
            then_br: Box::new(inline_subst_local(then_br, map, hidden)),
            else_br: match else_br {
                Some(b) => Some(Box::new(inline_subst_local(b, map, hidden))),
                None => None,
            },
            span: *span,
        },
        Expr::Loop { body, span } => Expr::Loop { body: Box::new(inline_subst_local(body, map, hidden)), span: *span },
        Expr::While { cond, body, span } => Expr::While {
            cond: Box::new(inline_subst_local(cond, map, hidden)),
            body: Box::new(inline_subst_local(body, map, hidden)),
            span: *span,
        },
        Expr::For { var, iter, body, span } => {
            let it = match iter {
                Iterable::Range(r) => Iterable::Range(RangeExpr {
                    start: Box::new(inline_subst_local(&r.start, map, hidden)),
                    end: Box::new(inline_subst_local(&r.end, map, hidden)),
                    step: match &r.step {
                        Some(s) => Some(Box::new(inline_subst_local(s, map, hidden))),
                        None => None,
                    },
                    inclusive: r.inclusive,
                    span: r.span,
                }),
                Iterable::Expr(e) => Iterable::Expr(Box::new(inline_subst_local(e, map, hidden))),
            };
            Expr::For { var: copy(var), iter: it, body: Box::new(inline_subst_local(body, map, hidden)), span: *span }
        },
        Expr::Assign { name, expr: inner, span } => Expr::Assign {
            name: copy(name),
            expr: Box::new(inline_subst_local(inner, map, hidden)),
            span: *span,
        },
        Expr::Break { value, span } => Expr::Break {
            value: match value {
                Some(v) => Some(Box::new(inline_subst_local(v, map, hidden))),
                None => None,
            },
            span: *span,
        },
        Expr::Field { base, field, span } => Expr::Field {
            base: Box::new(inline_subst_local(base, map, hidden)),
            field: copy(field),
            span: *span,
        },
        Expr::Match { scrutinee, arms, span } => Expr::Match {
            scrutinee: Box::new(inline_subst_local(scrutinee, map, hidden)),
            arms: subst_arms(arms, map, hidden),
            span: *span,
        },
        Expr::Call { op, args, span } => Expr::Call { op: copy(op), args: subst_all(args, map, hidden), span: *span },
        Expr::CallDyn { func, args, span } => Expr::CallDyn {
            func: Box::new(inline_subst_local(func, map, hidden)),
            args: subst_all(args, map, hidden),
            span: *span,
        },
        Expr::MethodCall { base, method, args, span } => Expr::MethodCall {
            base: Box::new(inline_subst_local(base, map, hidden)),
            method: copy(method),
            args: subst_all(args, map, hidden),
            span: *span,
        },
        Expr::VecLit { elems, span, ann } => Expr::VecLit { elems: subst_all(elems, map, hidden), span: *span, ann: clone_opt_ty(ann) },
        Expr::MapLit { kind, entries, span, ann } => Expr::MapLit {
            kind: *kind,
            entries: subst_entries(entries, map, hidden),
            span: *span,
            ann: match ann {
                Some((k, v)) => Some((crate::ast::clone_ty(k), crate::ast::clone_ty(v))),
                None => None,
            },
        },
        Expr::SetLit { elems, span, ann } => Expr::SetLit { elems: subst_all(elems, map, hidden), span: *span, ann: clone_opt_ty(ann) },
    }
}

fn subst_all(xs: &Vec<Expr>, map: &Vec<(String, Expr)>, hidden: &Vec<String>) -> (r: Vec<Expr>)
    ensures
        r@.len() == xs@.len(),
        forall|i: int| 0 <= i < xs@.len() ==> subst_rel(r@[i], #[trigger] xs@[i], map@, crate::modules::names_view(hidden@)),
    decreases xs,
{
    let mut out: Vec<Expr> = Vec::new();
    let mut i: usize = 0;
    while i < xs.len()
        invariant
            i <= xs@.len(),
            out@.len() == i,
            forall|j: int| 0 <= j < i ==> subst_rel(out@[j], #[trigger] xs@[j], map@, crate::modules::names_view(hidden@)),
        decreases xs@.len() - i,
    {
        out.push(inline_subst_local(&xs[i], map, hidden));
        i = i + 1;
    }
    out
}

fn subst_bindings(bs: &Vec<LetBinding>, map: &Vec<(String, Expr)>, hidden: &Vec<String>) -> (r: (Vec<LetBinding>, Vec<String>))
    ensures
        r.0@.len() == bs@.len(),
        crate::modules::names_view(r.1@) == crate::modules::names_view(hidden@).push(Seq::empty()) + binding_names(bs@),
        forall|i: int| 0 <= i < bs@.len() ==> {
            &&& (#[trigger] bs@[i]).name@ == r.0@[i].name@
            &&& bs@[i].rust_name@ == r.0@[i].rust_name@
            &&& opt_ty_same(r.0@[i].ann, bs@[i].ann)
            &&& subst_rel(r.0@[i].expr, bs@[i].expr, map@,
                crate::modules::names_view(hidden@).push(Seq::empty()) + binding_names(bs@.take(i)))
            &&& bs@[i].span == r.0@[i].span
        },
    decreases bs,
{
    let ghost hv = crate::modules::names_view(hidden@);
    let mut out: Vec<LetBinding> = Vec::new();
    let mut shadowed = with_hidden(hidden, &String::new());
    let mut i: usize = 0;
    proof {
        assert(binding_names(bs@.take(0)) =~= Seq::<Seq<char>>::empty());
        assert(crate::modules::names_view(shadowed@) =~= hv.push(Seq::empty()) + binding_names(bs@.take(0)));
    }
    while i < bs.len()
        invariant
            i <= bs@.len(),
            out@.len() == i,
            hv == crate::modules::names_view(hidden@),
            crate::modules::names_view(shadowed@) == hv.push(Seq::empty()) + binding_names(bs@.take(i as int)),
            forall|j: int| 0 <= j < i ==> {
                &&& (#[trigger] bs@[j]).name@ == out@[j].name@
                &&& bs@[j].rust_name@ == out@[j].rust_name@
                &&& opt_ty_same(out@[j].ann, bs@[j].ann)
                &&& subst_rel(out@[j].expr, bs@[j].expr, map@, hv.push(Seq::empty()) + binding_names(bs@.take(j)))
                &&& bs@[j].span == out@[j].span
            },
        decreases bs@.len() - i,
    {
        let b = &bs[i];
        let expr = inline_subst_local(&b.expr, map, &shadowed);
        let ghost prev = shadowed@;
        shadowed.push(copy(&b.rust_name));
        proof {
            assert(binding_names(bs@.take(i + 1)) =~= binding_names(bs@.take(i as int)).push(bs@[i as int].rust_name@));
            assert(crate::modules::names_view(shadowed@) =~= crate::modules::names_view(prev).push(bs@[i as int].rust_name@));
            assert(crate::modules::names_view(shadowed@) =~= hv.push(Seq::empty()) + binding_names(bs@.take(i + 1)));
        }
        out.push(LetBinding { name: copy(&b.name), rust_name: copy(&b.rust_name), ann: clone_opt_ty(&b.ann), expr, span: b.span });
        i = i + 1;
    }
    proof {
        assert(bs@.take(bs@.len() as int) =~= bs@);
    }
    (out, shadowed)
}

fn subst_arms(arms: &Vec<MatchArm>, map: &Vec<(String, Expr)>, hidden: &Vec<String>) -> (r: Vec<MatchArm>)
    ensures
        r@.len() == arms@.len(),
        forall|i: int| 0 <= i < arms@.len() ==> pat_same(r@[i].pat, (#[trigger] arms@[i]).pat)
            && subst_rel(r@[i].body, arms@[i].body, map@, crate::modules::names_view(hidden@)) && arms@[i].span == r@[i].span,
    decreases arms,
{
    let mut out: Vec<MatchArm> = Vec::new();
    let mut i: usize = 0;
    while i < arms.len()
        invariant
            i <= arms@.len(),
            out@.len() == i,
            forall|j: int| 0 <= j < i ==> pat_same(out@[j].pat, (#[trigger] arms@[j]).pat)
                && subst_rel(out@[j].body, arms@[j].body, map@, crate::modules::names_view(hidden@)) && arms@[j].span == out@[j].span,
        decreases arms@.len() - i,
    {
        out.push(MatchArm { pat: clone_pat(&arms[i].pat), body: inline_subst_local(&arms[i].body, map, hidden), span: arms[i].span });
        i = i + 1;
    }
    out
}

fn subst_entries(es: &Vec<(Expr, Expr)>, map: &Vec<(String, Expr)>, hidden: &Vec<String>) -> (r: Vec<(Expr, Expr)>)
    ensures
        r@.len() == es@.len(),
        forall|i: int| 0 <= i < es@.len() ==> subst_rel(r@[i].0, (#[trigger] es@[i]).0, map@, crate::modules::names_view(hidden@))
            && subst_rel(r@[i].1, es@[i].1, map@, crate::modules::names_view(hidden@)),
    decreases es,
{
    let mut out: Vec<(Expr, Expr)> = Vec::new();
    let mut i: usize = 0;
    while i < es.len()
        invariant
            i <= es@.len(),
            out@.len() == i,
            forall|j: int| 0 <= j < i ==> subst_rel(out@[j].0, (#[trigger] es@[j]).0, map@, crate::modules::names_view(hidden@))
                && subst_rel(out@[j].1, es@[j].1, map@, crate::modules::names_view(hidden@)),
        decreases es@.len() - i,
    {
        let k = inline_subst_local(&es[i].0, map, hidden);
        let v = inline_subst_local(&es[i].1, map, hidden);
        out.push((k, v));
        i = i + 1;
    }
    out
}

/// The names of the inline definitions `defs`, in order.
pub open spec fn inline_names(defs: Seq<InlineDef>) -> Seq<Seq<char>> {
    defs.map_values(|d: InlineDef| d.name@)
}

/// `k` is the position of the first of `defs` named `name`.
pub open spec fn is_first_named(defs: Seq<InlineDef>, name: Seq<char>, k: int) -> bool {
    &&& 0 <= k < defs.len()
    &&& defs[k].name@ == name
    &&& forall|j: int| 0 <= j < k ==> (#[trigger] defs[j]).name@ != name
}

/// The message for an inline call with the wrong number of arguments.
pub open spec fn inline_arity_message(d: InlineDef) -> Seq<char> {
    "inline '"@ + d.name@ + "' expects "@ + crate::text::decimal(d.params@.len()) + " arguments"@
}

fn find_inline<'a>(defs: &'a Vec<InlineDef>, name: &String) -> (r: Option<&'a InlineDef>)
    ensures
        r matches Some(d) ==> exists|k: int| is_first_named(defs@, name@, k) && *d == defs@[k],
        r is None ==> !inline_names(defs@).contains(name@),
{
    let mut i: usize = 0;
    while i < defs.len()
        invariant
            i <= defs@.len(),
            forall|j: int| 0 <= j < i ==> (#[trigger] defs@[j]).name@ != name@,
        decreases defs@.len() - i,
    {
        if defs[i].name == *name {
            return Some(&defs[i]);
        }
        i = i + 1;
    }
    proof {
        if inline_names(defs@).contains(name@) {
            let k = choose|k: int| 0 <= k < inline_names(defs@).len() && inline_names(defs@)[k] == name@;
            assert(defs@[k].name@ == name@);
        }
    }
    None
}

/// `m` binds each parameter of `d`, by its Rust name, to the argument in
/// its place.
pub open spec fn inline_arg_map(m: Seq<(String, Expr)>, d: InlineDef, args: Seq<Expr>) -> bool {
    &&& m.len() == args.len()
    &&& m.len() == d.params@.len()
    &&& forall|j: int| 0 <= j < m.len() ==> (#[trigger] m[j]).0@ == d.params@[j].rust_name@ && expr_same(m[j].1, args[j])
}

/// `expr` with every call of an inline function replaced by the function's
/// body, the arguments substituted for the parameters, expanded again;
/// `fuel` bounds how deeply expansions nest.
pub fn expand_inline_calls(expr: &Expr, defs: &Vec<InlineDef>, fuel: usize) -> (r: DslResult<Expr>)
    ensures
        r matches Ok(x) ==> !calls_any(x, inline_names(defs@)),
        !calls_any(*expr, inline_names(defs@)) ==> (r matches Ok(x) && expr_same(x, *expr)),
        *expr is Break ==> (r matches Ok(x) ==> x is Break),
        *expr is Continue ==> (r matches Ok(x) ==> x is Continue),
        *expr matches Expr::Call { op, args, span } ==> forall|k: int| #[trigger] is_first_named(defs@, op@, k) ==> {
            &&& defs@[k].params@.len() != args@.len() ==> r is Err
                && r->Err_0.message@ == inline_arity_message(defs@[k]) && r->Err_0.span == Some(span)
            &&& defs@[k].params@.len() == args@.len() && fuel == 0 ==> r is Err
                && r->Err_0.message@ == "inline expansion is nested too deeply"@ && r->Err_0.span == Some(span)
            &&& defs@[k].params@.len() == args@.len() && fuel > 0 ==> exists|m: Seq<(String, Expr)>, x: Expr| {
                &&& #[trigger] inline_arg_map(m, defs@[k], args@)
                &&& #[trigger] subst_rel(x, defs@[k].body, m, Seq::empty())
                &&& !calls_any(x, inline_names(defs@)) ==> (r matches Ok(y) && expr_same(y, x))
            }
        },
    decreases fuel, expr,
{
    match expr {
        Expr::Call { op, args, span } => {
            if let Some(inl) = find_inline(defs, op) {
                proof {
                    let k0 = choose|k: int| is_first_named(defs@, op@, k) && *inl == defs@[k];
                    assert(inline_names(defs@)[k0] == op@);
                    assert forall|k: int| #[trigger] is_first_named(defs@, op@, k) implies k == k0 by {
                        if k < k0 {
                            assert(defs@[k].name@ != op@);
                        } else if k0 < k {
                            assert(defs@[k0].name@ != op@);
                        }
                    }
                    reveal_strlit("inline '");
                }
                if inl.params.len() != args.len() {
                    let n = usize_to_string(inl.params.len());
                    let msg = concat5("inline '", inl.name.as_str(), "' expects ", n.as_str(), " arguments");
                    return Err(Diag::from_message(msg).with_span(*span));
                }
                if fuel == 0 {
                    return Err(Diag::new("inline expansion is nested too deeply").with_span(*span));
                }
                let mut map: Vec<(String, Expr)> = Vec::new();
                let mut i: usize = 0;
                while i < args.len()
                    invariant
                        i <= args@.len(),
                        inl.params@.len() == args@.len(),
                        map@.len() == i,
                        forall|j: int| 0 <= j < i ==> (#[trigger] map@[j]).0@ == inl.params@[j].rust_name@
                            && expr_same(map@[j].1, args@[j]),
                    decreases args@.len() - i,
                {
                    map.push((copy(&inl.params[i].rust_name), clone_expr(&args[i])));
                    i = i + 1;
                }
                let no_hidden: Vec<String> = Vec::new();
                let expanded = inline_subst_local(&inl.body, &map, &no_hidden);
                proof {
                    assert(crate::modules::names_view(no_hidden@) =~= Seq::<Seq<char>>::empty());
                }
                let res = expand_inline_calls(&expanded, defs, fuel - 1);
                proof {
                    assert(inline_arg_map(map@, *inl, args@));
                    assert(subst_rel(expanded, inl.body, map@, Seq::empty()));
                }
                return res;
            }
            proof {
                assert forall|k: int| !(#[trigger] is_first_named(defs@, op@, k)) by {
                    if is_first_named(defs@, op@, k) {
                        assert(inline_names(defs@)[k] == op@);
                    }
                }
            }
            match expand_all(args, defs, fuel) {
                Ok(out) => Ok(Expr::Call { op: copy(op), args: out, span: *span }),
                Err(e) => Err(e),
            }
        },
        Expr::If { cond, then_br, else_br, span } => {
            let c = match expand_inline_calls(cond, defs, fuel) {
                Ok(x) => x,
                Err(e) => return Err(e),
            };
            let t = match expand_inline_calls(then_br, defs, fuel) {
                Ok(x) => x,
                Err(e) => return Err(e),
            };
            let el = match else_br {
                Some(b) => match expand_inline_calls(b, defs, fuel) {
                    Ok(x) => Some(Box::new(x)),
                    Err(e) => return Err(e),
                },
                None => None,
            };
            Ok(Expr::If { cond: Box::new(c), then_br: Box::new(t), else_br: el, span: *span })
        },
        Expr::Let { bindings, body, span } => {
            let out = match expand_bindings(bindings, defs, fuel) {
                Ok(x) => x,
                Err(e) => return Err(e),
            };
            match expand_inline_calls(body, defs, fuel) {
                Ok(b) => Ok(Expr::Let { bindings: out, body: Box::new(b), span: *span }),
                Err(e) => Err(e),
            }
        },
        Expr::Lambda { params, body, span } => match expand_inline_calls(body, defs, fuel) {
            Ok(b) => Ok(Expr::Lambda { params: clone_params(params), body: Box::new(b), span: *span }),
            Err(e) => Err(e),
        },
        Expr::CallDyn { func, args, span } => {
            let f = match expand_inline_calls(func, defs, fuel) {
                Ok(x) => x,
                Err(e) => return Err(e),
            };
            match expand_all(args, defs, fuel) {
                Ok(out) => Ok(Expr::CallDyn { func: Box::new(f), args: out, span: *span }),
                Err(e) => Err(e),
            }
        },
        Expr::MethodCall { base, method, args, span } => {
            let b = match expand_inline_calls(base, defs, fuel) {
                Ok(x) => x,
                Err(e) => return Err(e),
            };
            match expand_all(args, defs, fuel) {
                Ok(out) => Ok(Expr::MethodCall { base: Box::new(b), method: copy(method), args: out, span: *span }),
                Err(e) => Err(e),
            }
        },
        Expr::Do { exprs, span } => match expand_all(exprs, defs, fuel) {
            Ok(out) => Ok(Expr::Do { exprs: out, span: *span }),
            Err(e) => Err(e),
        },
        Expr::Loop { body, span } => match expand_inline_calls(body, defs, fuel) {
            Ok(b) => Ok(Expr::Loop { body: Box::new(b), span: *span }),
            Err(e) => Err(e),
        },
        Expr::While { cond, body, span } => {
            let c = match expand_inline_calls(cond, defs, fuel) {
                Ok(x) => x,
                Err(e) => return Err(e),
            };
            match expand_inline_calls(body, defs, fuel) {
                Ok(b) => Ok(Expr::While { cond: Box::new(c), body: Box::new(b), span: *span }),
                Err(e) => Err(e),
            }
        },
        Expr::For { var, iter, body, span } => {
            let it = match iter {
                Iterable::Range(r) => {
                    let s = match expand_inline_calls(&r.start, defs, fuel) {
                        Ok(x) => x,
                        Err(e) => return Err(e),
                    };
                    let en = match expand_inline_calls(&r.end, defs, fuel) {
                        Ok(x) => x,
                        Err(e) => return Err(e),
                    };
                    let st = match &r.step {
                        Some(st) => match expand_inline_calls(st, defs, fuel) {
                            Ok(x) => Some(Box::new(x)),
                            Err(e) => return Err(e),
                        },
                        None => None,
                    };
                    Iterable::Range(RangeExpr { start: Box::new(s), end: Box::new(en), step: st, inclusive: r.inclusive, span: r.span })
                },
                Iterable::Expr(e) => match expand_inline_calls(e, defs, fuel) {
                    Ok(x) => Iterable::Expr(Box::new(x)),
                    Err(err) => return Err(err),
                },
            };
            match expand_inline_calls(body, defs, fuel) {
                Ok(b) => Ok(Expr::For { var: copy(var), iter: it, body: Box::new(b), span: *span }),
                Err(e) => Err(e),
            }
        },
        Expr::Assign { name, expr: inner, span } => match expand_inline_calls(inner, defs, fuel) {
            Ok(x) => Ok(Expr::Assign { name: copy(name), expr: Box::new(x), span: *span }),
            Err(e) => Err(e),
        },
        Expr::Break { value, span } => match value {
            Some(v) => match expand_inline_calls(v, defs, fuel) {
                Ok(x) => Ok(Expr::Break { value: Some(Box::new(x)), span: *span }),
                Err(e) => Err(e),
            },
            None => Ok(Expr::Break { value: None, span: *span }),
        },
        Expr::Pair { key, val, span } => {
            let k = match expand_inline_calls(key, defs, fuel) {
                Ok(x) => x,
                Err(e) => return Err(e),
            };
            match expand_inline_calls(val, defs, fuel) {
                Ok(v) => Ok(Expr::Pair { key: Box::new(k), val: Box::new(v), span: *span }),
                Err(e) => Err(e),
            }
        },
        Expr::Field { base, field, span } => match expand_inline_calls(base, defs, fuel) {
            Ok(b) => Ok(Expr::Field { base: Box::new(b), field: copy(field), span: *span }),
            Err(e) => Err(e),
        },
        Expr::Match { scrutinee, arms, span } => {
            let sc = match expand_inline_calls(scrutinee, defs, fuel) {
                Ok(x) => x,
                Err(e) => return Err(e),
            };
            match expand_arms(arms, defs, fuel) {
                Ok(a) => Ok(Expr::Match { scrutinee: Box::new(sc), arms: a, span: *span }),
                Err(e) => Err(e),
            }
        },
        Expr::VecLit { elems, span, ann } => match expand_all(elems, defs, fuel) {
            Ok(out) => Ok(Expr::VecLit { elems: out, span: *span, ann: clone_opt_ty(ann) }),
            Err(e) => Err(e),
        },
        Expr::SetLit { elems, span, ann } => match expand_all(elems, defs, fuel) {
            Ok(out) => Ok(Expr::SetLit { elems: out, span: *span, ann: clone_opt_ty(ann) }),
            Err(e) => Err(e),
        },
        Expr::MapLit { kind, entries, span, ann } => match expand_entries(entries, defs, fuel) {
            Ok(out) => Ok(Expr::MapLit {
                kind: *kind,
                entries: out,
                span: *span,
                ann: match ann {
                    Some((k, v)) => Some((crate::ast::clone_ty(k), crate::ast::clone_ty(v))),
                    None => None,
                },
            }),
            Err(e) => Err(e),
        },
        Expr::Ascribe { expr: inner, ann, span } => match expand_inline_calls(inner, defs, fuel) {
            Ok(x) => Ok(Expr::Ascribe { expr: Box::new(x), ann: crate::ast::clone_ty(ann), span: *span }),
            Err(e) => Err(e),
        },
        Expr::Cast { expr: inner, ann, span } => match expand_inline_calls(inner, defs, fuel) {
            Ok(x) => Ok(Expr::Cast { expr: Box::new(x), ann: crate::ast::clone_ty(ann), span: *span }),
            Err(e) => Err(e),
        },
        Expr::Int(..) | Expr::Float(..) | Expr::Str(..) | Expr::Bool(..) | Expr::Unit(..)
        | Expr::SymbolLit(..) | Expr::Var(..) | Expr::Continue { .. } => Ok(clone_expr(expr)),
    }
}

fn expand_all(xs: &Vec<Expr>, defs: &Vec<InlineDef>, fuel: usize) -> (r: DslResult<Vec<Expr>>)
    ensures
        r matches Ok(v) ==> !calls_any_of(v@, inline_names(defs@)),
        !calls_any_of(xs@, inline_names(defs@)) ==> (r matches Ok(v) && v@.len() == xs@.len()
            && forall|i: int| 0 <= i < xs@.len() ==> expr_same(#[trigger] v@[i], xs@[i])),
    decreases fuel, xs,
{
    proof {
        if !calls_any_of(xs@, inline_names(defs@)) {
            lemma_calls_any_of_each(xs@, inline_names(defs@));
        }
    }
    let mut out: Vec<Expr> = Vec::new();
    let mut i: usize = 0;
    while i < xs.len()
        invariant
            i <= xs@.len(),
            forall|j: int| 0 <= j < out@.len() ==> !calls_any(#[trigger] out@[j], inline_names(defs@)),
            !calls_any_of(xs@, inline_names(defs@)) ==> out@.len() == i
                && (forall|j: int| 0 <= j < xs@.len() ==> !calls_any(#[trigger] xs@[j], inline_names(defs@)))
                && forall|j: int| 0 <= j < i ==> expr_same(#[trigger] out@[j], xs@[j]),
        decreases xs@.len() - i,
    {
        match expand_inline_calls(&xs[i], defs, fuel) {
            Ok(x) => out.push(x),
            Err(e) => return Err(e),
        }
        i = i + 1;
    }
    proof { lemma_calls_any_of(out@, inline_names(defs@)); }
    Ok(out)
}

fn expand_bindings(bs: &Vec<LetBinding>, defs: &Vec<InlineDef>, fuel: usize) -> (r: DslResult<Vec<LetBinding>>)
    ensures
        r matches Ok(v) ==> !bindings_call(v@, inline_names(defs@)),
        !bindings_call(bs@, inline_names(defs@)) ==> (r matches Ok(v) && v@.len() == bs@.len()
            && forall|i: int| 0 <= i < bs@.len() ==> {
                &&& (#[trigger] v@[i]).name@ == bs@[i].name@
                &&& v@[i].rust_name@ == bs@[i].rust_name@
                &&& opt_ty_same(v@[i].ann, bs@[i].ann)
                &&& expr_same(v@[i].expr, bs@[i].expr)
                &&& v@[i].span == bs@[i].span
            }),
    decreases fuel, bs,
{
    proof {
        if !bindings_call(bs@, inline_names(defs@)) {
            lemma_bindings_call_each(bs@, inline_names(defs@));
        }
    }
    let mut out: Vec<LetBinding> = Vec::new();
    let mut i: usize = 0;
    while i < bs.len()
        invariant
            i <= bs@.len(),
            forall|j: int| 0 <= j < out@.len() ==> !calls_any(#[trigger] out@[j].expr, inline_names(defs@)),
            !bindings_call(bs@, inline_names(defs@)) ==> out@.len() == i
                && (forall|j: int| 0 <= j < bs@.len() ==> !calls_any(#[trigger] bs@[j].expr, inline_names(defs@)))
                && forall|j: int| 0 <= j < i ==> {
                    &&& (#[trigger] out@[j]).name@ == bs@[j].name@
                    &&& out@[j].rust_name@ == bs@[j].rust_name@
                    &&& opt_ty_same(out@[j].ann, bs@[j].ann)
                    &&& expr_same(out@[j].expr, bs@[j].expr)
                    &&& out@[j].span == bs@[j].span
                },
        decreases bs@.len() - i,
    {
        let b = &bs[i];
        match expand_inline_calls(&b.expr, defs, fuel) {
            Ok(x) => out.push(LetBinding { name: copy(&b.name), rust_name: copy(&b.rust_name), ann: clone_opt_ty(&b.ann), expr: x, span: b.span }),
            Err(e) => return Err(e),
        }
        i = i + 1;
    }
    proof { lemma_bindings_call(out@, inline_names(defs@)); }
    Ok(out)
}

fn expand_arms(arms: &Vec<MatchArm>, defs: &Vec<InlineDef>, fuel: usize) -> (r: DslResult<Vec<MatchArm>>)
    ensures
        r matches Ok(v) ==> !arms_call(v@, inline_names(defs@)),
        !arms_call(arms@, inline_names(defs@)) ==> (r matches Ok(v) && v@.len() == arms@.len()
            && forall|i: int| 0 <= i < arms@.len() ==> pat_same((#[trigger] v@[i]).pat, arms@[i].pat)
                && expr_same(v@[i].body, arms@[i].body) && v@[i].span == arms@[i].span),
    decreases fuel, arms,
{
    proof {
        if !arms_call(arms@, inline_names(defs@)) {
            lemma_arms_call_each(arms@, inline_names(defs@));
        }
    }
    let mut out: Vec<MatchArm> = Vec::new();
    let mut i: usize = 0;
    while i < arms.len()
        invariant
            i <= arms@.len(),
            forall|j: int| 0 <= j < out@.len() ==> !calls_any(#[trigger] out@[j].body, inline_names(defs@)),
            !arms_call(arms@, inline_names(defs@)) ==> out@.len() == i
                && (forall|j: int| 0 <= j < arms@.len() ==> !calls_any(#[trigger] arms@[j].body, inline_names(defs@)))
                && forall|j: int| 0 <= j < i ==> pat_same((#[trigger] out@[j]).pat, arms@[j].pat)
                    && expr_same(out@[j].body, arms@[j].body) && out@[j].span == arms@[j].span,
        decreases arms@.len() - i,
    {
        match expand_inline_calls(&arms[i].body, defs, fuel) {
            Ok(x) => out.push(MatchArm { pat: clone_pat(&arms[i].pat), body: x, span: arms[i].span }),
            Err(e) => return Err(e),
        }
        i = i + 1;
    }
    proof { lemma_arms_call(out@, inline_names(defs@)); }
    Ok(out)
}

#[verifier::spinoff_prover]
fn expand_entries(es: &Vec<(Expr, Expr)>, defs: &Vec<InlineDef>, fuel: usize) -> (r: DslResult<Vec<(Expr, Expr)>>)
    ensures
        r matches Ok(v) ==> !entries_call(v@, inline_names(defs@)),
        !entries_call(es@, inline_names(defs@)) ==> (r matches Ok(v) && v@.len() == es@.len()
            && forall|i: int| 0 <= i < es@.len() ==> expr_same((#[trigger] v@[i]).0, es@[i].0) && expr_same(v@[i].1, es@[i].1)),
    decreases fuel, es,
{
    proof {
        if !entries_call(es@, inline_names(defs@)) {
            lemma_entries_call_each(es@, inline_names(defs@));
        }
    }
    let mut out: Vec<(Expr, Expr)> = Vec::new();
    let mut i: usize = 0;
    while i < es.len()
        invariant
            i <= es@.len(),
            forall|j: int| 0 <= j < out@.len() ==> !calls_any(#[trigger] out@[j].0, inline_names(defs@))
                && !calls_any(out@[j].1, inline_names(defs@)),
            !entries_call(es@, inline_names(defs@)) ==> out@.len() == i
                && (forall|j: int| 0 <= j < es@.len() ==> !calls_any(#[trigger] es@[j].0, inline_names(defs@))
                    && !calls_any(es@[j].1, inline_names(defs@)))
                && forall|j: int| 0 <= j < i ==> expr_same((#[trigger] out@[j]).0, es@[j].0) && expr_same(out@[j].1, es@[j].1),
        decreases es@.len() - i,
    {
        let k = match expand_inline_calls(&es[i].0, defs, fuel) {
            Ok(x) => x,
            Err(e) => return Err(e),
        };
        let v = match expand_inline_calls(&es[i].1, defs, fuel) {
            Ok(x) => x,
            Err(e) => return Err(e),
        };
        let ghost prev = out@;
        out.push((k, v));
        proof {
            if !entries_call(es@, inline_names(defs@)) {
                assert(!calls_any(es@[i as int].0, inline_names(defs@)));
                assert(!calls_any(es@[i as int].1, inline_names(defs@)));
                assert(expr_same(k, es@[i as int].0) && expr_same(v, es@[i as int].1));
                assert forall|j: int| 0 <= j < i + 1 implies expr_same((#[trigger] out@[j]).0, es@[j].0)
                    && expr_same(out@[j].1, es@[j].1) by {
                    if j < i {
                        assert(out@[j] == prev[j]);
                    }
                }
            }
        }
        i = i + 1;
    }
    proof { lemma_entries_call(out@, inline_names(defs@)); }
    Ok(out)
}

/// The names of the inline definitions among the top-level forms `tops`,
/// in order.
pub open spec fn top_inline_names(tops: Seq<Top>) -> Seq<Seq<char>>
    decreases tops.len(),
{
    if tops.len() == 0 {
        seq![]
    } else {
        let rest = top_inline_names(tops.drop_last());
        match tops.last() {
            Top::Inline(d) => rest.push(d.name@),
            _ => rest,
        }
    }
}

/// Whether the body of a function or the value of a definition among
/// `tops` calls one of `names`.
pub open spec fn tops_call(tops: Seq<Top>, names: Seq<Seq<char>>) -> bool {
    exists|i: int| 0 <= i < tops.len() && match #[trigger] tops[i] {
        Top::Func(fd) => calls_any(fd.body, names),
        Top::Def(d) => calls_any(d.expr, names),
        _ => false,
    }
}

/// Two top-level forms have the same head: both functions with the same
/// name and number of parameters, both values with the same name, or both
/// records, enums or `require`s.
pub open spec fn top_same_head(a: Top, b: Top) -> bool {
    match (a, b) {
        (Top::Func(x), Top::Func(y)) => x.name@ == y.name@ && x.params@.len() == y.params@.len()
            && x.extern_ == y.extern_ && (y.body is Break ==> x.body is Break)
            && (y.body is Continue ==> x.body is Continue),
        (Top::Def(x), Top::Def(y)) => x.name@ == y.name@,
        (Top::Struct(x), Top::Struct(y)) => x.name@ == y.name@,
        (Top::Union(x), Top::Union(y)) => x.name@ == y.name@,
        (Top::Use(_), Top::Use(_)) => true,
        _ => false,
    }
}

/// `out` is `tops` without the inline definitions, each other form kept in
/// order with its head.
pub open spec fn tops_kept(out: Seq<Top>, tops: Seq<Top>) -> bool
    decreases tops.len(),
{
    if tops.len() == 0 {
        out.len() == 0
    } else if tops.last() is Inline {
        tops_kept(out, tops.drop_last())
    } else {
        &&& out.len() > 0
        &&& tops_kept(out.drop_last(), tops.drop_last())
        &&& top_same_head(out.last(), tops.last())
    }
}

/// Among `tops` is a function named `name` with `n` parameters.
pub open spec fn has_fn(tops: Seq<Top>, name: Seq<char>, n: nat) -> bool {
    exists|i: int| 0 <= i < tops.len() && (#[trigger] tops[i]) is Func && tops[i]->Func_0.name@ == name
        && tops[i]->Func_0.params@.len() == n
}

/// A function among `tops` repeats the name and number of parameters of
/// an earlier one.
pub open spec fn dup_fn(tops: Seq<Top>) -> bool {
    exists|j: int| 0 <= j < tops.len() && (#[trigger] tops[j]) is Func
        && has_fn(tops.take(j), tops[j]->Func_0.name@, tops[j]->Func_0.params@.len())
}

/// Keeping the heads keeps the functions.
pub proof fn lemma_kept_has_fn(out: Seq<Top>, tops: Seq<Top>, name: Seq<char>, n: nat)
    requires
        tops_kept(out, tops),
        has_fn(tops, name, n),
    ensures
        has_fn(out, name, n),
    decreases tops.len(),
{
    let i = choose|i: int| 0 <= i < tops.len() && (#[trigger] tops[i]) is Func && tops[i]->Func_0.name@ == name
        && tops[i]->Func_0.params@.len() == n;
    if i == tops.len() - 1 {
        assert(out[out.len() - 1] == out.last());
    } else {
        assert(tops.drop_last()[i] == tops[i]);
        if tops.last() is Inline {
            lemma_kept_has_fn(out, tops.drop_last(), name, n);
        } else {
            lemma_kept_has_fn(out.drop_last(), tops.drop_last(), name, n);
            let k = choose|k: int| 0 <= k < out.drop_last().len() && (#[trigger] out.drop_last()[k]) is Func
                && out.drop_last()[k]->Func_0.name@ == name && out.drop_last()[k]->Func_0.params@.len() == n;
            assert(out[k] == out.drop_last()[k]);
        }
    }
}

/// Keeping the heads keeps a repeated function.
pub proof fn lemma_kept_dup_fn(out: Seq<Top>, tops: Seq<Top>)
    requires
        tops_kept(out, tops),
        dup_fn(tops),
    ensures
        dup_fn(out),
    decreases tops.len(),
{
    let j = choose|j: int| 0 <= j < tops.len() && (#[trigger] tops[j]) is Func
        && has_fn(tops.take(j), tops[j]->Func_0.name@, tops[j]->Func_0.params@.len());
    if j == tops.len() - 1 {
        assert(tops.take(j) =~= tops.drop_last());
        lemma_kept_has_fn(out.drop_last(), tops.drop_last(), tops[j]->Func_0.name@, tops[j]->Func_0.params@.len());
        let m = out.len() - 1;
        assert(out.take(m) =~= out.drop_last());
        assert(out[m] == out.last());
    } else {
        assert(tops.drop_last()[j] == tops[j]);
        assert(tops.drop_last().take(j) =~= tops.take(j));
        if tops.last() is Inline {
            lemma_kept_dup_fn(out, tops.drop_last());
        } else {
            lemma_kept_dup_fn(out.drop_last(), tops.drop_last());
            let o = out.drop_last();
            let k = choose|k: int| 0 <= k < o.len() && (#[trigger] o[k]) is Func
                && has_fn(o.take(k), o[k]->Func_0.name@, o[k]->Func_0.params@.len());
            assert(out[k] == o[k]);
            assert(out.take(k) =~= o.take(k));
        }
    }
}

/// The name a record or enum definition gives a type.
pub open spec fn top_type_name(t: Top) -> Option<Seq<char>> {
    match t {
        Top::Struct(sd) => Some(sd.name@),
        Top::Union(ud) => Some(ud.name@),
        _ => None,
    }
}

/// Among `tops` is a record or enum named `name`.
pub open spec fn has_type(tops: Seq<Top>, name: Seq<char>) -> bool {
    exists|i: int| 0 <= i < tops.len() && top_type_name(#[trigger] tops[i]) == Some(name)
}

/// A record or enum among `tops` repeats the name of an earlier one.
pub open spec fn dup_type(tops: Seq<Top>) -> bool {
    exists|j: int| 0 <= j < tops.len() && (#[trigger] top_type_name(tops[j])) is Some
        && has_type(tops.take(j), top_type_name(tops[j])->Some_0)
}

/// Keeping the heads keeps the record and enum names.
pub proof fn lemma_kept_has_type(out: Seq<Top>, tops: Seq<Top>, name: Seq<char>)
    requires
        tops_kept(out, tops),
        has_type(tops, name),
    ensures
        has_type(out, name),
    decreases tops.len(),
{
    let i = choose|i: int| 0 <= i < tops.len() && top_type_name(#[trigger] tops[i]) == Some(name);
    if i == tops.len() - 1 {
        assert(out[out.len() - 1] == out.last());
    } else {
        assert(tops.drop_last()[i] == tops[i]);
        if tops.last() is Inline {
            lemma_kept_has_type(out, tops.drop_last(), name);
        } else {
            lemma_kept_has_type(out.drop_last(), tops.drop_last(), name);
            let k = choose|k: int| 0 <= k < out.drop_last().len() && top_type_name(#[trigger] out.drop_last()[k]) == Some(name);
            assert(out[k] == out.drop_last()[k]);
        }
    }
}

/// Keeping the heads keeps a repeated record or enum name.
pub proof fn lemma_kept_dup_type(out: Seq<Top>, tops: Seq<Top>)
    requires
        tops_kept(out, tops),
        dup_type(tops),
    ensures
        dup_type(out),
    decreases tops.len(),
{
    let j = choose|j: int| 0 <= j < tops.len() && (#[trigger] top_type_name(tops[j])) is Some
        && has_type(tops.take(j), top_type_name(tops[j])->Some_0);
    if j == tops.len() - 1 {
        assert(tops.take(j) =~= tops.drop_last());
        lemma_kept_has_type(out.drop_last(), tops.drop_last(), top_type_name(tops[j])->Some_0);
        let m = out.len() - 1;
        assert(out.take(m) =~= out.drop_last());
        assert(out[m] == out.last());
        assert(top_type_name(out[m]) is Some);
    } else {
        assert(tops.drop_last()[j] == tops[j]);
        assert(tops.drop_last().take(j) =~= tops.take(j));
        if tops.last() is Inline {
            lemma_kept_dup_type(out, tops.drop_last());
        } else {
            lemma_kept_dup_type(out.drop_last(), tops.drop_last());
            let o = out.drop_last();
            let k = choose|k: int| 0 <= k < o.len() && (#[trigger] top_type_name(o[k])) is Some
                && has_type(o.take(k), top_type_name(o[k])->Some_0);
            assert(out[k] == o[k]);
            assert(out.take(k) =~= o.take(k));
        }
    }
}

/// A function, not extern, whose whole body is a `break` or a `continue`
/// with no loop round it.
pub open spec fn stray_jump_fn(t: Top) -> bool {
    t matches Top::Func(fd) && !fd.extern_ && (fd.body is Break || fd.body is Continue)
}

/// Among `tops` is a function whose body is a stray `break` or `continue`.
pub open spec fn has_stray_jump(tops: Seq<Top>) -> bool {
    exists|i: int| 0 <= i < tops.len() && stray_jump_fn(#[trigger] tops[i])
}

/// Keeping the heads keeps a function whose body is a stray jump.
pub proof fn lemma_kept_stray_jump(out: Seq<Top>, tops: Seq<Top>)
    requires
        tops_kept(out, tops),
        has_stray_jump(tops),
    ensures
        has_stray_jump(out),
    decreases tops.len(),
{
    let i = choose|i: int| 0 <= i < tops.len() && stray_jump_fn(#[trigger] tops[i]);
    if i == tops.len() - 1 {
        assert(out[out.len() - 1] == out.last());
    } else {
        assert(tops.drop_last()[i] == tops[i]);
        if tops.last() is Inline {
            lemma_kept_stray_jump(out, tops.drop_last());
        } else {
            lemma_kept_stray_jump(out.drop_last(), tops.drop_last());
            let k = choose|k: int| 0 <= k < out.drop_last().len() && stray_jump_fn(#[trigger] out.drop_last()[k]);
            assert(out[k] == out.drop_last()[k]);
        }
    }
}

/// The inline names of the first `n` forms are a prefix of those of all.
proof fn lemma_top_names_prefix(tops: Seq<Top>, n: int)
    requires
        0 <= n <= tops.len(),
    ensures
        exists|rest: Seq<Seq<char>>| top_inline_names(tops) == top_inline_names(tops.take(n)) + rest,
    decreases tops.len(),
{
    if n == tops.len() {
        assert(tops.take(n) =~= tops);
        assert(top_inline_names(tops) == top_inline_names(tops.take(n)) + Seq::<Seq<char>>::empty());
    } else {
        let t2 = tops.drop_last();
        lemma_top_names_prefix(t2, n);
        assert(t2.take(n) =~= tops.take(n));
        let rest = choose|rest: Seq<Seq<char>>| top_inline_names(t2) == top_inline_names(t2.take(n)) + rest;
        match tops.last() {
            Top::Inline(d) => {
                assert(top_inline_names(tops) =~= top_inline_names(tops.take(n)) + rest.push(d.name@));
            },
            _ => {
                assert(top_inline_names(tops) == top_inline_names(tops.take(n)) + rest);
            },
        }
    }
}

fn copy_inline(d: &InlineDef) -> (r: InlineDef)
    ensures
        r.name@ == d.name@,
{
    InlineDef {
        name: copy(&d.name),
        rust_name: copy(&d.rust_name),
        params: d.params.clone(),
        body: clone_expr(&d.body),
        span: d.span,
    }
}

/// The top-level forms without the inline definitions, with inline calls
/// expanded in functions and top-level values: no function body or value
/// left calls an inline function. Two inline definitions may not share a
/// name.
pub fn expand_inline_tops(tops: &Vec<Top>) -> (r: DslResult<Vec<Top>>)
    ensures
        r matches Ok(v) ==> forall|i: int| 0 <= i < v@.len() ==> !(#[trigger] v@[i] is Inline),
        r matches Ok(v) ==> !tops_call(v@, top_inline_names(tops@)),
        r is Ok ==> top_inline_names(tops@).no_duplicates(),
        r matches Ok(v) ==> tops_kept(v@, tops@),
        top_inline_names(tops@).no_duplicates() && !tops_call(tops@, top_inline_names(tops@)) ==> r is Ok,
{
    let mut defs: Vec<InlineDef> = Vec::new();
    let mut i: usize = 0;
    while i < tops.len()
        invariant
            i <= tops@.len(),
            inline_names(defs@) == top_inline_names(tops@.take(i as int)),
            inline_names(defs@).no_duplicates(),
        decreases tops@.len() - i,
    {
        proof {
            assert(tops@.take(i + 1).drop_last() == tops@.take(i as int));
        }
        if let Top::Inline(inl) = &tops[i] {
            if find_inline(&defs, &inl.name).is_some() {
                proof {
                    let names = top_inline_names(tops@.take(i + 1));
                    assert(tops@.take(i + 1).last() == tops@[i as int]);
                    assert(names == inline_names(defs@).push(inl.name@));
                    let k = choose|k: int| is_first_named(defs@, inl.name@, k);
                    assert(names[k] == names[names.len() - 1]);
                    assert(!names.no_duplicates());
                    lemma_top_names_prefix(tops@, i + 1);
                    let rest = choose|rest: Seq<Seq<char>>| top_inline_names(tops@) == names + rest;
                    assert(top_inline_names(tops@)[k] == names[k]);
                    assert(top_inline_names(tops@)[names.len() - 1] == names[names.len() - 1]);
                }
                let msg = crate::text::concat3("duplicate inline '", inl.name.as_str(), "'");
                return Err(Diag::from_message(msg).with_span(inl.span));
            }
            let d = copy_inline(inl);
            let ghost before = defs@;
            defs.push(d);
            proof {
                assert(inline_names(defs@) == inline_names(before).push(d.name@));
                assert forall|a: int, b: int| 0 <= a < b < inline_names(defs@).len()
                    implies inline_names(defs@)[a] != inline_names(defs@)[b] by {
                    if b == inline_names(defs@).len() - 1 && inline_names(defs@)[a] == inline_names(defs@)[b] {
                        assert(inline_names(before)[a] == inl.name@);
                    }
                }
            }
        }
        i = i + 1;
    }
    proof {
        assert(tops@.take(tops@.len() as int) == tops@);
    }
    let mut out: Vec<Top> = Vec::new();
    let mut i: usize = 0;
    while i < tops.len()
        invariant
            i <= tops@.len(),
            inline_names(defs@) == top_inline_names(tops@),
            forall|j: int| 0 <= j < out@.len() ==> !(#[trigger] out@[j] is Inline),
            forall|j: int| 0 <= j < out@.len() ==> match #[trigger] out@[j] {
                Top::Func(fd) => !calls_any(fd.body, inline_names(defs@)),
                Top::Def(d) => !calls_any(d.expr, inline_names(defs@)),
                _ => true,
            },
            tops_kept(out@, tops@.take(i as int)),
        decreases tops@.len() - i,
    {
        proof {
            assert(tops@.take(i + 1).drop_last() =~= tops@.take(i as int));
            assert(tops@.take(i + 1).last() == tops@[i as int]);
        }
        let ghost prev = out@;
        match &tops[i] {
            Top::Inline(_) => {},
            Top::Func(fd) => {
                let body = match expand_inline_calls(&fd.body, &defs, INLINE_DEPTH_LIMIT) {
                    Ok(b) => b,
                    Err(e) => return Err(e),
                };
                out.push(Top::Func(FnDef {
                    name: copy(&fd.name),
                    rust_name: copy(&fd.rust_name),
                    params: clone_params(&fd.params),
                    body,
                    span: fd.span,
                    specialize: fd.specialize,
                    exported: fd.exported,
                    extern_: fd.extern_,
                    extern_ret: clone_opt_ty(&fd.extern_ret),
                }));
            },
            Top::Def(d) => {
                let expr = match expand_inline_calls(&d.expr, &defs, INLINE_DEPTH_LIMIT) {
                    Ok(b) => b,
                    Err(e) => return Err(e),
                };
                out.push(Top::Def(Def { name: copy(&d.name), rust_name: copy(&d.rust_name), ann: clone_opt_ty(&d.ann), expr, span: d.span }));
            },
            Top::Struct(sd) => out.push(Top::Struct(crate::ast::clone_struct_def(sd))),
            Top::Union(ud) => out.push(Top::Union(crate::ast::clone_union_def(ud))),
            Top::Use(u) => out.push(Top::Use(u.clone())),
        }
        proof {
            if !(tops@[i as int] is Inline) {
                assert(out@.drop_last() =~= prev);
            }
        }
        i = i + 1;
    }
    proof {
        assert(tops@.take(tops@.len() as int) =~= tops@);
    }
    Ok(out)
}

} // verus!
