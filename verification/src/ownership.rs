//! Ownership: how each parameter is passed (by value when the function
//! consumes it, by reference otherwise), and where a variable must be
//! cloned because it is used again after being moved.

use vstd::prelude::*;
use crate::ast::{clone_ty, Expr, Iterable, Ty};
use crate::diag::{Diag, Span};
use crate::specialize::lookup_type;
use crate::text::{concat3, copy, str_is};
use crate::typecheck::{contains_string, FnEnv, FnSig};
use crate::typed::{ParamMode, SpanKey, TypedFn};

verus! {

// ---------------------------------------------------------------------------
// Copy types

/// The scalar types that are `Copy`.
pub open spec fn copy_scalar(n: Seq<char>) -> bool {
    n == "i8"@ || n == "i16"@ || n == "i32"@ || n == "i64"@ || n == "i128"@ || n == "isize"@
        || n == "u8"@ || n == "u16"@ || n == "u32"@ || n == "u64"@ || n == "u128"@ || n == "usize"@
        || n == "f32"@ || n == "f64"@ || n == "bool"@
}

/// Whether values of `t` are copied rather than moved: the Copy scalars,
/// an option of one, a result whose success type is one, and a union of
/// them.
pub open spec fn is_copy(t: Ty) -> bool
    decreases t,
{
    match t {
        Ty::Named(n) => copy_scalar(n@),
        Ty::Option(x) => is_copy(*x),
        Ty::Result(x, _) => is_copy(*x),
        Ty::Union(xs) => forall|i: int| 0 <= i < xs@.len() ==> is_copy(#[trigger] xs@[i]),
        _ => false,
    }
}

/// Decides `is_copy`.
pub fn is_copy_type(t: &Ty) -> (b: bool)
    ensures
        b == is_copy(*t),
    decreases t,
{
    match t {
        Ty::Named(n) => {
            let s = n.as_str();
            str_is(s, "i8") || str_is(s, "i16") || str_is(s, "i32") || str_is(s, "i64") || str_is(s, "i128")
                || str_is(s, "isize") || str_is(s, "u8") || str_is(s, "u16") || str_is(s, "u32")
                || str_is(s, "u64") || str_is(s, "u128") || str_is(s, "usize") || str_is(s, "f32")
                || str_is(s, "f64") || str_is(s, "bool")
        },
        Ty::Option(x) => is_copy_type(x),
        Ty::Result(x, _) => is_copy_type(x),
        Ty::Union(xs) => all_copy(xs),
        _ => false,
    }
}

fn all_copy(xs: &Vec<Ty>) -> (b: bool)
    ensures
        b == forall|i: int| 0 <= i < xs@.len() ==> is_copy(#[trigger] xs@[i]),
    decreases xs,
{
    let mut i: usize = 0;
    while i < xs.len()
        invariant
            i <= xs@.len(),
            forall|j: int| 0 <= j < i ==> is_copy(#[trigger] xs@[j]),
        decreases xs@.len() - i,
    {
        if !is_copy_type(&xs[i]) {
            return false;
        }
        i = i + 1;
    }
    true
}

// ---------------------------------------------------------------------------
// Small maps and sets on vectors

/// The last type recorded for `name`.
pub fn named_ty<'a>(tys: &'a Vec<(String, Ty)>, name: &String) -> (r: Option<&'a Ty>)
    ensures
        r matches Some(t) ==> exists|i: int| 0 <= i < tys@.len() && (#[trigger] tys@[i]).0@ == name@ && tys@[i].1 == *t
            && forall|j: int| i < j < tys@.len() ==> (#[trigger] tys@[j]).0@ != name@,
        r is None ==> forall|i: int| 0 <= i < tys@.len() ==> (#[trigger] tys@[i]).0@ != name@,
{
    let mut i: usize = tys.len();
    while i > 0
        invariant
            i <= tys@.len(),
            forall|j: int| i <= j < tys@.len() ==> (#[trigger] tys@[j]).0@ != name@,
        decreases i,
    {
        if tys[i - 1].0 == *name {
            return Some(&tys[i - 1].1);
        }
        i = i - 1;
    }
    None
}

/// Whether some string of `v` is `x`.
pub open spec fn in_set(v: Seq<String>, x: Seq<char>) -> bool {
    exists|i: int| 0 <= i < v.len() && (#[trigger] v[i])@ == x
}

/// Adds `name` to the set `v`.
fn set_add(v: &mut Vec<String>, name: &String)
    ensures
        forall|x: Seq<char>| #[trigger] in_set(final(v)@, x) <==> (in_set(old(v)@, x) || x == name@),
{
    if !contains_string(v, name) {
        let ghost before = v@;
        v.push(copy(name));
        proof {
            assert forall|x: Seq<char>| #[trigger] in_set(v@, x) <==> (in_set(before, x) || x == name@) by {
                if in_set(v@, x) {
                    let i = choose|i: int| 0 <= i < v@.len() && (#[trigger] v@[i])@ == x;
                    if i < before.len() {
                        assert(before[i] == v@[i]);
                    }
                }
                if x == name@ {
                    assert(v@[before.len() as int]@ == x);
                } else if in_set(before, x) {
                    let i = choose|i: int| 0 <= i < before.len() && (#[trigger] before[i])@ == x;
                    assert(v@[i] == before[i]);
                }
            }
        }
    }
}

/// `after` is `before` with `x` recorded for `name`: the first entry keyed
/// `name` gets `x`, or, where there is none, one is added at the end.
pub open spec fn keyed_set<X>(before: Seq<(String, X)>, after: Seq<(String, X)>, name: Seq<char>, x: X) -> bool {
    ||| exists|i: int| 0 <= i < before.len() && (#[trigger] before[i]).0@ == name
        && (forall|j: int| 0 <= j < i ==> (#[trigger] before[j]).0@ != name)
        && after.len() == before.len() && after[i].0@ == name && after[i].1 == x
        && (forall|j: int| 0 <= j < before.len() && j != i ==> #[trigger] after[j] == before[j])
    ||| (forall|j: int| 0 <= j < before.len() ==> (#[trigger] before[j]).0@ != name)
        && after.len() == before.len() + 1 && after.drop_last() == before
        && after.last().0@ == name && after.last().1 == x
}

/// Records `name` with type `t`, replacing an earlier record.
fn set_named_ty(tys: &mut Vec<(String, Ty)>, name: &String, t: Ty)
    ensures
        keyed_set(old(tys)@, final(tys)@, name@, t),
{
    let ghost t0 = t;
    let mut i: usize = 0;
    while i < tys.len()
        invariant
            i <= tys@.len(),
            tys@ == old(tys)@,
            t == t0,
            forall|j: int| 0 <= j < i ==> (#[trigger] tys@[j]).0@ != name@,
        decreases tys@.len() - i,
    {
        if tys[i].0 == *name {
            tys.set(i, (copy(name), t));
            assert(old(tys)@[i as int].0@ == name@);
            return;
        }
        i = i + 1;
    }
    tys.push((copy(name), t));
    assert(tys@.drop_last() =~= old(tys)@);
}

fn clone_named_tys(v: &Vec<(String, Ty)>) -> (out: Vec<(String, Ty)>)
    ensures
        out@.len() == v@.len(),
        forall|i: int| 0 <= i < v@.len() ==> (#[trigger] out@[i]).0@ == v@[i].0@
            && crate::ast::ty_same(out@[i].1, v@[i].1),
{
    let mut out: Vec<(String, Ty)> = Vec::new();
    let mut i: usize = 0;
    while i < v.len()
        invariant
            i <= v@.len(),
            out@.len() == i,
            forall|j: int| 0 <= j < i ==> (#[trigger] out@[j]).0@ == v@[j].0@
                && crate::ast::ty_same(out@[j].1, v@[j].1),
        decreases v@.len() - i,
    {
        out.push((copy(&v[i].0), clone_ty(&v[i].1)));
        i = i + 1;
    }
    out
}

fn clone_strings(v: &Vec<String>) -> (out: Vec<String>)
    ensures
        out@.len() == v@.len(),
        forall|i: int| 0 <= i < v@.len() ==> (#[trigger] out@[i])@ == v@[i]@,
{
    let mut out: Vec<String> = Vec::new();
    let mut i: usize = 0;
    while i < v.len()
        invariant
            i <= v@.len(),
            out@.len() == i,
            forall|j: int| 0 <= j < i ==> (#[trigger] out@[j])@ == v@[j]@,
        decreases v@.len() - i,
    {
        out.push(copy(&v[i]));
        i = i + 1;
    }
    out
}

// ---------------------------------------------------------------------------
// Parameter modes

/// The passing modes of the runtime functions that only read some of
/// their arguments.
pub fn builtin_param_modes() -> (r: Vec<(String, Vec<ParamMode>)>)
    ensures
        r@.len() == 20,
{
    let mut out: Vec<(String, Vec<ParamMode>)> = Vec::new();
    out.push((String::from_str("darcy.btree-map/contains"), vec![ParamMode::ByRef, ParamMode::ByVal]));
    out.push((String::from_str("darcy.btree-map/get"), vec![ParamMode::ByRef, ParamMode::ByVal]));
    out.push((String::from_str("darcy.btree-map/is-empty"), vec![ParamMode::ByRef]));
    out.push((String::from_str("darcy.btree-map/len"), vec![ParamMode::ByRef]));
    out.push((String::from_str("darcy.core/clone"), vec![ParamMode::ByRefNoAmp]));
    out.push((String::from_str("darcy.fmt/pretty"), vec![ParamMode::ByRefNoAmp]));
    out.push((String::from_str("darcy.hash-map/contains"), vec![ParamMode::ByRef, ParamMode::ByVal]));
    out.push((String::from_str("darcy.hash-map/get"), vec![ParamMode::ByRef, ParamMode::ByVal]));
    out.push((String::from_str("darcy.hash-map/is-empty"), vec![ParamMode::ByRef]));
    out.push((String::from_str("darcy.hash-map/len"), vec![ParamMode::ByRef]));
    out.push((String::from_str("darcy.io/dbg"), vec![ParamMode::ByRefNoAmp]));
    out.push((String::from_str("darcy.string/is-empty"), vec![ParamMode::ByRef]));
    out.push((String::from_str("darcy.string/join"), vec![ParamMode::ByVal, ParamMode::ByRef]));
    out.push((String::from_str("darcy.string/len"), vec![ParamMode::ByRef]));
    out.push((String::from_str("darcy.string/split"), vec![ParamMode::ByRef, ParamMode::ByRef]));
    out.push((String::from_str("darcy.string/trim"), vec![ParamMode::ByRef]));
    out.push((String::from_str("darcy.vec/get"), vec![ParamMode::ByRef, ParamMode::ByVal]));
    out.push((String::from_str("darcy.vec/is-empty"), vec![ParamMode::ByRef]));
    out.push((String::from_str("darcy.vec/len"), vec![ParamMode::ByRef]));
    out.push((String::from_str("darcy.vec/range"), vec![ParamMode::ByVal]));
    out
}

/// The modes recorded for `name`.
fn modes_of<'a>(table: &'a Vec<(String, Vec<ParamMode>)>, name: &String) -> (r: Option<&'a Vec<ParamMode>>)
    ensures
        r matches Some(m) ==> exists|i: int| 0 <= i < table@.len() && (#[trigger] table@[i]).0@ == name@
            && table@[i].1 == *m,
{
    let mut i: usize = 0;
    while i < table.len()
        invariant
            i <= table@.len(),
        decreases table@.len() - i,
    {
        if table[i].0 == *name {
            return Some(&table[i].1);
        }
        i = i + 1;
    }
    None
}

/// The mode of the `idx`th argument: by value unless `modes` says otherwise.
fn mode_at(modes: Option<&Vec<ParamMode>>, idx: usize) -> (m: ParamMode)
    ensures
        match modes {
            Some(v) => if idx < v@.len() { m == v@[idx as int] } else { m == ParamMode::ByVal },
            None => m == ParamMode::ByVal,
        },
{
    match modes {
        Some(v) => if idx < v.len() { v[idx] } else { ParamMode::ByVal },
        None => ParamMode::ByVal,
    }
}

/// A parameter that `f` may move: named in `params`, not shadowed by a
/// local, and of a type that is not Copy.
pub open spec fn consumable(params: Seq<(String, Ty)>, name: Seq<char>) -> bool {
    exists|i: int| 0 <= i < params.len() && (#[trigger] params[i]).0@ == name && !is_copy(params[i].1)
}

/// Every name in `after` is a consumable parameter or was in `before`.
pub open spec fn only_consumable(params: Seq<(String, Ty)>, before: Seq<String>, after: Seq<String>) -> bool {
    forall|x: Seq<char>| #[trigger] in_set(after, x) ==> consumable(params, x) || in_set(before, x)
}

/// Every name of `a` is in `b`.
pub open spec fn keeps(a: Seq<String>, b: Seq<String>) -> bool {
    forall|x: Seq<char>| #[trigger] in_set(a, x) ==> in_set(b, x)
}

/// Adds to `out` the parameters of non-Copy type that `expr` moves: those
/// used as values other than through a borrowing argument or a field access.
pub fn param_consumption_visit(
    expr: &Expr,
    params: &Vec<(String, Ty)>,
    builtin: &Vec<(String, Vec<ParamMode>)>,
    fn_modes: &Vec<(String, Vec<ParamMode>)>,
    locals: &mut Vec<String>,
    out: &mut Vec<String>,
)
    ensures
        only_consumable(params@, old(out)@, final(out)@),
        keeps(old(out)@, final(out)@),
    decreases expr, 1nat,
{
    let ghost out0 = out@;
    match expr {
        Expr::Var(name, _) => {
            if contains_string(locals, name) {
                return;
            }
            if let Some(t) = named_ty(params, name) {
                if !is_copy_type(t) {
                    set_add(out, name);
                }
            }
        },
        Expr::Ascribe { expr: inner, .. } | Expr::Cast { expr: inner, .. } | Expr::Assign { expr: inner, .. } => {
            param_consumption_visit(inner, params, builtin, fn_modes, locals, out);
        },
        Expr::Let { bindings, body, .. } => {
            visit_bindings(bindings, params, builtin, fn_modes, locals, out);
            param_consumption_visit(body, params, builtin, fn_modes, locals, out);
        },
        Expr::Lambda { params: lparams, body, .. } => {
            let mut nested = clone_strings(locals);
            let mut i: usize = 0;
            while i < lparams.len()
                invariant
                    i <= lparams@.len(),
                decreases lparams@.len() - i,
            {
                set_add(&mut nested, &lparams[i].rust_name);
                i = i + 1;
            }
            param_consumption_visit(body, params, builtin, fn_modes, &mut nested, out);
        },
        Expr::Call { op, args, .. } => {
            let modes = match modes_of(fn_modes, op) {
                Some(m) => Some(m),
                None => modes_of(builtin, op),
            };
            visit_args(args, modes, params, builtin, fn_modes, locals, out);
        },
        Expr::CallDyn { args, .. } | Expr::Do { exprs: args, .. } | Expr::VecLit { elems: args, .. }
        | Expr::SetLit { elems: args, .. } => {
            visit_all(args, params, builtin, fn_modes, locals, out);
        },
        Expr::MethodCall { base, args, .. } => {
            param_consumption_visit(base, params, builtin, fn_modes, locals, out);
            let ghost o1 = out@;
            visit_all(args, params, builtin, fn_modes, locals, out);
        },
        Expr::Field { base, .. } => {
            param_consumption_borrow(base, params, builtin, fn_modes, locals, out);
        },
        Expr::If { cond, then_br, else_br, .. } => {
            param_consumption_visit(cond, params, builtin, fn_modes, locals, out);
            let ghost o1 = out@;
            param_consumption_visit(then_br, params, builtin, fn_modes, locals, out);
            if let Some(e) = else_br {
                let ghost o2 = out@;
                param_consumption_visit(e, params, builtin, fn_modes, locals, out);
            }
        },
        Expr::Loop { body, .. } | Expr::While { body, .. } | Expr::For { body, .. } => {
            param_consumption_visit(body, params, builtin, fn_modes, locals, out);
        },
        Expr::Match { scrutinee, arms, .. } => {
            param_consumption_visit(scrutinee, params, builtin, fn_modes, locals, out);
            visit_arms(arms, params, builtin, fn_modes, locals, out);
        },
        Expr::MapLit { entries, .. } => {
            visit_entries(entries, params, builtin, fn_modes, locals, out);
        },
        Expr::Pair { key, val, .. } => {
            param_consumption_visit(key, params, builtin, fn_modes, locals, out);
            let ghost o1 = out@;
            param_consumption_visit(val, params, builtin, fn_modes, locals, out);
        },
        Expr::Break { value, .. } => {
            if let Some(v) = value {
                param_consumption_visit(v, params, builtin, fn_modes, locals, out);
            }
        },
        _ => {},
    }
}

fn visit_bindings(
    bs: &Vec<crate::ast::LetBinding>,
    params: &Vec<(String, Ty)>,
    builtin: &Vec<(String, Vec<ParamMode>)>,
    fn_modes: &Vec<(String, Vec<ParamMode>)>,
    locals: &mut Vec<String>,
    out: &mut Vec<String>,
)
    ensures
        only_consumable(params@, old(out)@, final(out)@),
        keeps(old(out)@, final(out)@),
    decreases bs, 0nat,
{
    let ghost out0 = out@;
    let mut i: usize = 0;
    while i < bs.len()
        invariant
            i <= bs@.len(),
            only_consumable(params@, out0, out@),
            keeps(out0, out@),
        decreases bs@.len() - i,
    {
        param_consumption_visit(&bs[i].expr, params, builtin, fn_modes, locals, out);
        set_add(locals, &bs[i].rust_name);
        i = i + 1;
    }
}

fn visit_args(
    args: &Vec<Expr>,
    modes: Option<&Vec<ParamMode>>,
    params: &Vec<(String, Ty)>,
    builtin: &Vec<(String, Vec<ParamMode>)>,
    fn_modes: &Vec<(String, Vec<ParamMode>)>,
    locals: &mut Vec<String>,
    out: &mut Vec<String>,
)
    ensures
        only_consumable(params@, old(out)@, final(out)@),
        keeps(old(out)@, final(out)@),
    decreases args, 0nat,
{
    let ghost out0 = out@;
    let mut i: usize = 0;
    while i < args.len()
        invariant
            i <= args@.len(),
            only_consumable(params@, out0, out@),
            keeps(out0, out@),
        decreases args@.len() - i,
    {
        let m = mode_at(modes, i);
        if m == ParamMode::ByRef || m == ParamMode::ByRefNoAmp {
            param_consumption_borrow(&args[i], params, builtin, fn_modes, locals, out);
        } else {
            param_consumption_visit(&args[i], params, builtin, fn_modes, locals, out);
        }
        i = i + 1;
    }
}

fn visit_arms(
    arms: &Vec<crate::ast::MatchArm>,
    params: &Vec<(String, Ty)>,
    builtin: &Vec<(String, Vec<ParamMode>)>,
    fn_modes: &Vec<(String, Vec<ParamMode>)>,
    locals: &mut Vec<String>,
    out: &mut Vec<String>,
)
    ensures
        only_consumable(params@, old(out)@, final(out)@),
        keeps(old(out)@, final(out)@),
    decreases arms, 0nat,
{
    let ghost out0 = out@;
    let mut i: usize = 0;
    while i < arms.len()
        invariant
            i <= arms@.len(),
            only_consumable(params@, out0, out@),
            keeps(out0, out@),
        decreases arms@.len() - i,
    {
        param_consumption_visit(&arms[i].body, params, builtin, fn_modes, locals, out);
        i = i + 1;
    }
}

fn visit_entries(
    es: &Vec<(Expr, Expr)>,
    params: &Vec<(String, Ty)>,
    builtin: &Vec<(String, Vec<ParamMode>)>,
    fn_modes: &Vec<(String, Vec<ParamMode>)>,
    locals: &mut Vec<String>,
    out: &mut Vec<String>,
)
    ensures
        only_consumable(params@, old(out)@, final(out)@),
        keeps(old(out)@, final(out)@),
    decreases es, 0nat,
{
    let ghost out0 = out@;
    let mut i: usize = 0;
    while i < es.len()
        invariant
            i <= es@.len(),
            only_consumable(params@, out0, out@),
            keeps(out0, out@),
        decreases es@.len() - i,
    {
        param_consumption_visit(&es[i].0, params, builtin, fn_modes, locals, out);
        param_consumption_visit(&es[i].1, params, builtin, fn_modes, locals, out);
        i = i + 1;
    }
}

fn visit_all(
    xs: &Vec<Expr>,
    params: &Vec<(String, Ty)>,
    builtin: &Vec<(String, Vec<ParamMode>)>,
    fn_modes: &Vec<(String, Vec<ParamMode>)>,
    locals: &mut Vec<String>,
    out: &mut Vec<String>,
)
    ensures
        only_consumable(params@, old(out)@, final(out)@),
        keeps(old(out)@, final(out)@),
    decreases xs, 0nat,
{
    let ghost out0 = out@;
    let mut i: usize = 0;
    while i < xs.len()
        invariant
            i <= xs@.len(),
            only_consumable(params@, out0, out@),
            keeps(out0, out@),
        decreases xs@.len() - i,
    {
        let ghost o1 = out@;
        param_consumption_visit(&xs[i], params, builtin, fn_modes, locals, out);
        i = i + 1;
    }
}

/// As `param_consumption_visit`, except that a variable passed to a
/// borrowing parameter is not moved.
fn param_consumption_borrow(
    expr: &Expr,
    params: &Vec<(String, Ty)>,
    builtin: &Vec<(String, Vec<ParamMode>)>,
    fn_modes: &Vec<(String, Vec<ParamMode>)>,
    locals: &mut Vec<String>,
    out: &mut Vec<String>,
)
    ensures
        only_consumable(params@, old(out)@, final(out)@),
        keeps(old(out)@, final(out)@),
    decreases expr, 2nat,
{
    match expr {
        Expr::Var(..) => {},
        _ => param_consumption_visit(expr, params, builtin, fn_modes, locals, out),
    }
}

/// The parameters of `params` that `expr` moves, as
/// `param_consumption_visit` finds them.
pub fn param_consumption_in_expr(
    expr: &Expr,
    params: &Vec<(String, Ty)>,
    builtin: &Vec<(String, Vec<ParamMode>)>,
    fn_modes: &Vec<(String, Vec<ParamMode>)>,
) -> (out: Vec<String>)
    ensures
        forall|x: Seq<char>| #[trigger] in_set(out@, x) ==> consumable(params@, x),
{
    let mut locals: Vec<String> = Vec::new();
    let mut out: Vec<String> = Vec::new();
    param_consumption_visit(expr, params, builtin, fn_modes, &mut locals, &mut out);
    out
}

/// The type recorded for the parameter `name`, or the unknown type.
pub open spec fn param_type(params: Seq<(String, Ty)>, name: Seq<char>) -> Ty {
    if exists|i: int| 0 <= i < params.len() && (#[trigger] params[i]).0@ == name {
        params[choose|i: int| 0 <= i < params.len() && (#[trigger] params[i]).0@ == name
            && forall|j: int| i < j < params.len() ==> (#[trigger] params[j]).0@ != name].1
    } else {
        Ty::Unknown
    }
}

/// The modes of `f`'s parameters given the parameters it moves: a
/// parameter of Copy type, or one that is moved, is passed by value; any
/// other by reference.
pub fn modes_for(f: &TypedFn, consumed: &Vec<String>) -> (r: Vec<ParamMode>)
    ensures
        r@.len() == f.def.params@.len(),
        forall|i: int| 0 <= i < f.def.params@.len() ==> {
            let name = (#[trigger] f.def.params@[i]).rust_name@;
            let copyable = exists|k: int| 0 <= k < f.param_tys@.len() && f.param_tys@[k].0@ == name
                && is_copy(f.param_tys@[k].1) && forall|j: int| k < j < f.param_tys@.len()
                    ==> (#[trigger] f.param_tys@[j]).0@ != name;
            r@[i] == if copyable || in_set(consumed@, name) { ParamMode::ByVal } else { ParamMode::ByRef }
        },
{
    let mut out: Vec<ParamMode> = Vec::new();
    let mut i: usize = 0;
    while i < f.def.params.len()
        invariant
            i <= f.def.params@.len(),
            out@.len() == i,
            forall|m: int| 0 <= m < i ==> {
                let name = (#[trigger] f.def.params@[m]).rust_name@;
                let copyable = exists|k: int| 0 <= k < f.param_tys@.len() && f.param_tys@[k].0@ == name
                    && is_copy(f.param_tys@[k].1) && forall|j: int| k < j < f.param_tys@.len()
                        ==> (#[trigger] f.param_tys@[j]).0@ != name;
                out@[m] == if copyable || in_set(consumed@, name) { ParamMode::ByVal } else { ParamMode::ByRef }
            },
        decreases f.def.params@.len() - i,
    {
        let name = &f.def.params[i].rust_name;
        let copyable = match last_named(&f.param_tys, name) {
            Some(k) => is_copy_type(&f.param_tys[k].1),
            None => false,
        };
        let mode = if copyable || contains_string(consumed, name) { ParamMode::ByVal } else { ParamMode::ByRef };
        out.push(mode);
        i = i + 1;
    }
    out
}

/// The index of the last entry named `name`.
fn last_named(tys: &Vec<(String, Ty)>, name: &String) -> (r: Option<usize>)
    ensures
        r matches Some(k) ==> k < tys@.len() && tys@[k as int].0@ == name@
            && forall|j: int| k < j < tys@.len() ==> (#[trigger] tys@[j]).0@ != name@,
        r is None ==> forall|j: int| 0 <= j < tys@.len() ==> (#[trigger] tys@[j]).0@ != name@,
{
    let mut i: usize = tys.len();
    while i > 0
        invariant
            i <= tys@.len(),
            forall|j: int| i <= j < tys@.len() ==> (#[trigger] tys@[j]).0@ != name@,
        decreases i,
    {
        if tys[i - 1].0 == *name {
            return Some(i - 1);
        }
        i = i - 1;
    }
    None
}

fn modes_equal(a: &Vec<ParamMode>, b: &Vec<ParamMode>) -> (r: bool)
    ensures
        r == (a@ == b@),
{
    if a.len() != b.len() {
        return false;
    }
    let mut i: usize = 0;
    while i < a.len()
        invariant
            a@.len() == b@.len(),
            i <= a@.len(),
            forall|j: int| 0 <= j < i ==> a@[j] == b@[j],
        decreases a@.len() - i,
    {
        if a[i] != b[i] {
            return false;
        }
        i = i + 1;
    }
    assert(a@ =~= b@);
    true
}

/// Records `modes` for `name`, replacing an earlier record.
fn set_modes(table: &mut Vec<(String, Vec<ParamMode>)>, name: &String, modes: Vec<ParamMode>)
    ensures
        keyed_set(old(table)@, final(table)@, name@, modes),
{
    let ghost m0 = modes;
    let mut i: usize = 0;
    while i < table.len()
        invariant
            i <= table@.len(),
            table@ == old(table)@,
            modes == m0,
            forall|j: int| 0 <= j < i ==> (#[trigger] table@[j]).0@ != name@,
        decreases table@.len() - i,
    {
        if table[i].0 == *name {
            table.set(i, (copy(name), modes));
            assert(old(table)@[i as int].0@ == name@);
            return;
        }
        i = i + 1;
    }
    table.push((copy(name), modes));
    assert(table@.drop_last() =~= old(table)@);
}

fn by_value(n: usize) -> (r: Vec<ParamMode>)
    ensures
        r@.len() == n,
        forall|i: int| 0 <= i < n ==> r@[i] == ParamMode::ByVal,
{
    let mut out: Vec<ParamMode> = Vec::new();
    let mut i: usize = 0;
    while i < n
        invariant
            i <= n,
            out@.len() == i,
            forall|j: int| 0 <= j < i ==> out@[j] == ParamMode::ByVal,
        decreases n - i,
    {
        out.push(ParamMode::ByVal);
        i = i + 1;
    }
    out
}

fn unknowns(n: usize) -> (r: Vec<Ty>)
    ensures
        r@.len() == n,
{
    let mut out: Vec<Ty> = Vec::new();
    let mut i: usize = 0;
    while i < n
        invariant
            i <= n,
            out@.len() == i,
        decreases n - i,
    {
        out.push(Ty::Unknown);
        i = i + 1;
    }
    out
}

/// How each function passes its parameters, found by iterating to a fixed
/// point (at most sixteen rounds): a parameter is taken by value when its
/// type is Copy or the body moves it, by reference otherwise. The result
/// also holds the runtime functions' modes.
pub fn infer_param_modes(fns: &Vec<TypedFn>) -> (env: FnEnv)
    ensures
        env.wf(),
{
    let builtin = builtin_param_modes();
    let mut fn_modes: Vec<(String, Vec<ParamMode>)> = Vec::new();
    let mut i: usize = 0;
    while i < fns.len()
        invariant
            i <= fns@.len(),
        decreases fns@.len() - i,
    {
        set_modes(&mut fn_modes, &fns[i].def.name, by_value(fns[i].def.params.len()));
        i = i + 1;
    }
    let mut round: usize = 0;
    while round < 16
        invariant
            round <= 16,
        decreases 16 - round,
    {
        let mut changed = false;
        let mut i: usize = 0;
        while i < fns.len()
            invariant
                i <= fns@.len(),
            decreases fns@.len() - i,
        {
            let f = &fns[i];
            if !f.def.extern_ && f.def.params.len() > 0 {
                let consumed = param_consumption_in_expr(&f.body.expr, &f.param_tys, &builtin, &fn_modes);
                let next = modes_for(f, &consumed);
                let same = match modes_of(&fn_modes, &f.def.name) {
                    Some(m) => modes_equal(m, &next),
                    None => false,
                };
                if !same {
                    set_modes(&mut fn_modes, &f.def.name, next);
                    changed = true;
                }
            }
            i = i + 1;
        }
        if !changed {
            break;
        }
        round = round + 1;
    }
    let mut env = FnEnv::new();
    let mut i: usize = 0;
    while i < builtin.len()
        invariant
            env.wf(),
            i <= builtin@.len(),
        decreases builtin@.len() - i,
    {
        let sig = FnSig { params: unknowns(builtin[i].1.len()), param_modes: builtin[i].1.clone(), ret: Ty::Unknown };
        let _ = env.insert(copy(&builtin[i].0), sig);
        i = i + 1;
    }
    let mut i: usize = 0;
    while i < fns.len()
        invariant
            env.wf(),
            i <= fns@.len(),
        decreases fns@.len() - i,
    {
        let f = &fns[i];
        let mut params: Vec<Ty> = Vec::new();
        let mut k: usize = 0;
        while k < f.def.params.len()
            invariant
                k <= f.def.params@.len(),
            decreases f.def.params@.len() - k,
        {
            let t = match named_ty(&f.param_tys, &f.def.params[k].rust_name) {
                Some(t) => clone_ty(t),
                None => Ty::Unknown,
            };
            params.push(t);
            k = k + 1;
        }
        let modes = match modes_of(&fn_modes, &f.def.name) {
            Some(m) => m.clone(),
            None => by_value(f.def.params.len()),
        };
        let sig = FnSig { params, param_modes: modes, ret: clone_ty(&f.body.ty) };
        let _ = env.insert(copy(&f.def.name), sig);
        i = i + 1;
    }
    env
}

/// Gives each function the parameter modes of its overload in `env`.
pub fn apply_param_modes(fns: &mut Vec<TypedFn>, env: &FnEnv)
    requires
        env.wf(),
    ensures
        final(fns)@.len() == old(fns)@.len(),
        forall|i: int| 0 <= i < old(fns)@.len() ==> (#[trigger] final(fns)@[i]).def == old(fns)@[i].def,
{
    let mut i: usize = 0;
    while i < fns.len()
        invariant
            env.wf(),
            i <= fns@.len(),
            fns@.len() == old(fns)@.len(),
            forall|j: int| 0 <= j < old(fns)@.len() ==> (#[trigger] fns@[j]).def == old(fns)@[j].def,
        decreases fns@.len() - i,
    {
        let found = match env.get_arity(fns[i].def.name.as_str(), fns[i].def.params.len()) {
            Some(sig) => {
                let mut modes: Vec<(String, ParamMode)> = Vec::new();
                let mut k: usize = 0;
                while k < fns[i].def.params.len()
                    invariant
                        i < fns@.len(),
                        k <= fns@[i as int].def.params@.len(),
                    decreases fns@[i as int].def.params@.len() - k,
                {
                    if k < sig.param_modes.len() {
                        set_mode(&mut modes, &fns[i].def.params[k].rust_name, sig.param_modes[k]);
                    }
                    k = k + 1;
                }
                Some(modes)
            },
            None => None,
        };
        if let Some(modes) = found {
            let mut f = fns.remove(i);
            f.param_modes = modes;
            fns.insert(i, f);
        }
        i = i + 1;
    }
}

fn set_mode(modes: &mut Vec<(String, ParamMode)>, name: &String, m: ParamMode)
    ensures
        keyed_set(old(modes)@, final(modes)@, name@, m),
{
    let mut i: usize = 0;
    while i < modes.len()
        invariant
            i <= modes@.len(),
            modes@ == old(modes)@,
            forall|j: int| 0 <= j < i ==> (#[trigger] modes@[j]).0@ != name@,
        decreases modes@.len() - i,
    {
        if modes[i].0 == *name {
            modes.set(i, (copy(name), m));
            assert(old(modes)@[i as int].0@ == name@);
            return;
        }
        i = i + 1;
    }
    modes.push((copy(name), m));
    assert(modes@.drop_last() =~= old(modes)@);
}

// ---------------------------------------------------------------------------
// Moves

/// Where clones are inserted so that no variable is used after a move, and
/// the warnings that report them.
pub struct MovePlan {
    pub auto_clones: Vec<SpanKey>,
    pub warnings: Vec<Diag>,
}

/// Whether `k` is one of `keys`.
pub open spec fn has_key(keys: Seq<SpanKey>, k: SpanKey) -> bool {
    exists|i: int| 0 <= i < keys.len() && keys[i] == k
}

/// Every clone site of `a` is a clone site of `b`.
pub open spec fn plan_grows(a: MovePlan, b: MovePlan) -> bool {
    &&& forall|k: SpanKey| #[trigger] has_key(a.auto_clones@, k) ==> has_key(b.auto_clones@, k)
    &&& a.warnings@.len() <= b.warnings@.len()
}

/// Adds `k` to the clone sites; whether it was new.
fn add_clone(plan: &mut MovePlan, k: SpanKey) -> (added: bool)
    ensures
        has_key(final(plan).auto_clones@, k),
        added == !has_key(old(plan).auto_clones@, k),
        forall|x: SpanKey| #[trigger] has_key(final(plan).auto_clones@, x) <==> (has_key(old(plan).auto_clones@, x) || x == k),
        final(plan).warnings@ == old(plan).warnings@,
{
    let mut i: usize = 0;
    while i < plan.auto_clones.len()
        invariant
            i <= plan.auto_clones@.len(),
            forall|j: int| 0 <= j < i ==> plan.auto_clones@[j] != k,
        decreases plan.auto_clones@.len() - i,
    {
        if plan.auto_clones[i] == k {
            return false;
        }
        i = i + 1;
    }
    let ghost before = plan.auto_clones@;
    plan.auto_clones.push(k);
    proof {
        assert(plan.auto_clones@[before.len() as int] == k);
        assert forall|x: SpanKey| #[trigger] has_key(plan.auto_clones@, x) <==> (has_key(before, x) || x == k) by {
            if has_key(plan.auto_clones@, x) {
                let i = choose|i: int| 0 <= i < plan.auto_clones@.len() && plan.auto_clones@[i] == x;
                if i < before.len() {
                    assert(before[i] == plan.auto_clones@[i]);
                }
            }
            if has_key(before, x) {
                let i = choose|i: int| 0 <= i < before.len() && before[i] == x;
                assert(plan.auto_clones@[i] == before[i]);
            }
        }
    }
    true
}

/// The remaining counted uses of `name`: the first record's, or zero.
pub open spec fn count_of(counts: Seq<(String, usize)>, name: Seq<char>) -> nat {
    if exists|i: int| 0 <= i < counts.len() && (#[trigger] counts[i]).0@ == name {
        counts[choose|i: int| 0 <= i < counts.len() && (#[trigger] counts[i]).0@ == name
            && forall|j: int| 0 <= j < i ==> (#[trigger] counts[j]).0@ != name].1 as nat
    } else {
        0
    }
}

fn count_index(counts: &Vec<(String, usize)>, name: &String) -> (r: Option<usize>)
    ensures
        r matches Some(k) ==> k < counts@.len() && counts@[k as int].0@ == name@
            && forall|j: int| 0 <= j < k ==> (#[trigger] counts@[j]).0@ != name@,
        r is None ==> forall|j: int| 0 <= j < counts@.len() ==> (#[trigger] counts@[j]).0@ != name@,
{
    let mut i: usize = 0;
    while i < counts.len()
        invariant
            i <= counts@.len(),
            forall|j: int| 0 <= j < i ==> (#[trigger] counts@[j]).0@ != name@,
        decreases counts@.len() - i,
    {
        if counts[i].0 == *name {
            return Some(i);
        }
        i = i + 1;
    }
    None
}

/// The remaining counted uses of `name`.
fn remaining_uses(counts: &Vec<(String, usize)>, name: &String) -> (n: usize)
    ensures
        n == count_of(counts@, name@),
{
    match count_index(counts, name) {
        Some(k) => {
            proof {
                let c = choose|i: int| 0 <= i < counts@.len() && (#[trigger] counts@[i]).0@ == name@
                    && forall|j: int| 0 <= j < i ==> (#[trigger] counts@[j]).0@ != name@;
                if c < k {
                    assert(counts@[c].0@ != name@);
                } else if c > k {
                    assert(counts@[k as int].0@ != name@);
                }
            }
            counts[k].1
        },
        None => 0,
    }
}

/// One use of `name` fewer (never below zero).
fn dec_use_count(counts: &mut Vec<(String, usize)>, name: &String) {
    match count_index(counts, name) {
        Some(k) => {
            if counts[k].1 > 0 {
                let v = counts[k].1 - 1;
                counts.set(k, (copy(name), v));
            }
        },
        None => {},
    }
}

/// `b` keeps every count of `a`, under the same name, at least as high,
/// and may add more.
pub open spec fn counts_grow(a: Seq<(String, usize)>, b: Seq<(String, usize)>) -> bool {
    &&& a.len() <= b.len()
    &&& forall|k: int| 0 <= k < a.len() ==> (#[trigger] b[k]).0@ == a[k].0@ && b[k].1 >= a[k].1
}

/// `counts` holds a positive count for `name`.
pub open spec fn counted(counts: Seq<(String, usize)>, name: Seq<char>) -> bool {
    exists|k: int| 0 <= k < counts.len() && (#[trigger] counts[k]).0@ == name && counts[k].1 >= 1
}

/// One use of `name` more (saturating).
fn inc_use_count(counts: &mut Vec<(String, usize)>, name: &String)
    ensures
        counts_grow(old(counts)@, final(counts)@),
        counted(final(counts)@, name@),
        forall|k: int| 0 <= k < old(counts)@.len() && (#[trigger] old(counts)@[k]).0@ != name@
            ==> final(counts)@[k] == old(counts)@[k],
{
    match count_index(counts, name) {
        Some(k) => {
            let v = counts[k].1.saturating_add(1);
            counts.set(k, (copy(name), v));
            assert(counts@[k as int].0@ == name@ && counts@[k as int].1 >= 1);
        },
        None => {
            counts.push((copy(name), 1));
            assert(counts@[counts@.len() - 1].0@ == name@);
        },
    }
}

/// Counts, for each variable of non-Copy type, the uses of it that move it.
pub fn count_consumed_uses(
    expr: &Expr,
    types_map: &Vec<(SpanKey, Ty)>,
    env: &FnEnv,
    types: &mut Vec<(String, Ty)>,
    locals: &mut Vec<String>,
    counts: &mut Vec<(String, usize)>,
)
    requires
        env.wf(),
    ensures
        counts_grow(old(counts)@, final(counts)@),
        *expr matches Expr::Var(name, _) ==> (exists|i: int| 0 <= i < old(types)@.len() && (#[trigger] old(types)@[i]).0@ == name@)
            && !is_copy(named_ty_spec(old(types)@, name@)) ==> counted(final(counts)@, name@),
    decreases expr, 1nat,
{
    match expr {
        Expr::Var(name, _) => {
            proof {
                lemma_named_ty_spec(types@, name@);
            }
            if let Some(t) = named_ty(types, name) {
                if !is_copy_type(t) {
                    inc_use_count(counts, name);
                }
            }
        },
        Expr::Ascribe { expr: inner, .. } | Expr::Cast { expr: inner, .. } | Expr::Assign { expr: inner, .. }
        | Expr::Field { base: inner, .. } | Expr::Loop { body: inner, .. } | Expr::While { body: inner, .. }
        | Expr::For { body: inner, .. } => {
            count_consumed_uses(inner, types_map, env, types, locals, counts);
        },
        Expr::Let { bindings, body, .. } => {
            count_bindings(bindings, types_map, env, types, locals, counts);
            count_consumed_uses(body, types_map, env, types, locals, counts);
        },
        Expr::Lambda { params, body, .. } => {
            let mut nested_locals = clone_strings(locals);
            let mut nested_types = clone_named_tys(types);
            let mut i: usize = 0;
            while i < params.len()
                invariant
                    i <= params@.len(),
                decreases params@.len() - i,
            {
                set_add(&mut nested_locals, &params[i].rust_name);
                set_named_ty(&mut nested_types, &params[i].rust_name, Ty::Unknown);
                i = i + 1;
            }
            count_consumed_uses(body, types_map, env, &mut nested_types, &mut nested_locals, counts);
        },
        Expr::Call { op, args, .. } => {
            let modes = match env.get_arity(op.as_str(), args.len()) {
                Some(sig) => Some(&sig.param_modes),
                None => None,
            };
            count_args(args, modes, types_map, env, types, locals, counts);
        },
        Expr::CallDyn { args, .. } | Expr::Do { exprs: args, .. } | Expr::VecLit { elems: args, .. }
        | Expr::SetLit { elems: args, .. } => {
            count_args(args, None, types_map, env, types, locals, counts);
        },
        Expr::MethodCall { base, args, .. } => {
            count_consumed_uses(base, types_map, env, types, locals, counts);
            count_args(args, None, types_map, env, types, locals, counts);
        },
        Expr::If { cond, then_br, else_br, .. } => {
            count_consumed_uses(cond, types_map, env, types, locals, counts);
            count_consumed_uses(then_br, types_map, env, types, locals, counts);
            if let Some(e) = else_br {
                count_consumed_uses(e, types_map, env, types, locals, counts);
            }
        },
        Expr::Match { scrutinee, arms, .. } => {
            count_consumed_uses(scrutinee, types_map, env, types, locals, counts);
            count_arms(arms, types_map, env, types, locals, counts);
        },
        Expr::MapLit { entries, .. } => {
            count_entries(entries, types_map, env, types, locals, counts);
        },
        Expr::Pair { key, val, .. } => {
            count_consumed_uses(key, types_map, env, types, locals, counts);
            count_consumed_uses(val, types_map, env, types, locals, counts);
        },
        Expr::Break { value, .. } => {
            if let Some(v) = value {
                count_consumed_uses(v, types_map, env, types, locals, counts);
            }
        },
        _ => {},
    }
}

fn count_bindings(
    bs: &Vec<crate::ast::LetBinding>,
    types_map: &Vec<(SpanKey, Ty)>,
    env: &FnEnv,
    types: &mut Vec<(String, Ty)>,
    locals: &mut Vec<String>,
    counts: &mut Vec<(String, usize)>,
)
    requires
        env.wf(),
    ensures
        counts_grow(old(counts)@, final(counts)@),
    decreases bs, 0nat,
{
    let mut i: usize = 0;
    while i < bs.len()
        invariant
            env.wf(),
            counts_grow(old(counts)@, counts@),
            i <= bs@.len(),
        decreases bs@.len() - i,
    {
        count_consumed_uses(&bs[i].expr, types_map, env, types, locals, counts);
        let t = match lookup_type(types_map, SpanKey::new(&bs[i].expr.span())) {
            Some(t) => clone_ty(t),
            None => Ty::Unknown,
        };
        set_named_ty(types, &bs[i].rust_name, t);
        set_add(locals, &bs[i].rust_name);
        i = i + 1;
    }
}

fn count_args(
    args: &Vec<Expr>,
    modes: Option<&Vec<ParamMode>>,
    types_map: &Vec<(SpanKey, Ty)>,
    env: &FnEnv,
    types: &mut Vec<(String, Ty)>,
    locals: &mut Vec<String>,
    counts: &mut Vec<(String, usize)>,
)
    requires
        env.wf(),
    ensures
        counts_grow(old(counts)@, final(counts)@),
    decreases args, 0nat,
{
    let mut i: usize = 0;
    while i < args.len()
        invariant
            env.wf(),
            counts_grow(old(counts)@, counts@),
            i <= args@.len(),
        decreases args@.len() - i,
    {
        let m = mode_at(modes, i);
        if m != ParamMode::ByRef && m != ParamMode::ByRefNoAmp {
            count_consumed_uses(&args[i], types_map, env, types, locals, counts);
        }
        i = i + 1;
    }
}

fn count_arms(
    arms: &Vec<crate::ast::MatchArm>,
    types_map: &Vec<(SpanKey, Ty)>,
    env: &FnEnv,
    types: &mut Vec<(String, Ty)>,
    locals: &mut Vec<String>,
    counts: &mut Vec<(String, usize)>,
)
    requires
        env.wf(),
    ensures
        counts_grow(old(counts)@, final(counts)@),
    decreases arms, 0nat,
{
    let mut i: usize = 0;
    while i < arms.len()
        invariant
            env.wf(),
            counts_grow(old(counts)@, counts@),
            i <= arms@.len(),
        decreases arms@.len() - i,
    {
        count_consumed_uses(&arms[i].body, types_map, env, types, locals, counts);
        i = i + 1;
    }
}

fn count_entries(
    es: &Vec<(Expr, Expr)>,
    types_map: &Vec<(SpanKey, Ty)>,
    env: &FnEnv,
    types: &mut Vec<(String, Ty)>,
    locals: &mut Vec<String>,
    counts: &mut Vec<(String, usize)>,
)
    requires
        env.wf(),
    ensures
        counts_grow(old(counts)@, final(counts)@),
    decreases es, 0nat,
{
    let mut i: usize = 0;
    while i < es.len()
        invariant
            env.wf(),
            counts_grow(old(counts)@, counts@),
            i <= es@.len(),
        decreases es@.len() - i,
    {
        count_consumed_uses(&es[i].0, types_map, env, types, locals, counts);
        count_consumed_uses(&es[i].1, types_map, env, types, locals, counts);
        i = i + 1;
    }
}

/// A use of `name` at `sp` that moves it. The use is cloned when it is in a
/// loop and `name` (of non-Copy type) comes from outside the loop, when
/// further moving uses of `name` follow, or when `name` was moved before;
/// otherwise a non-Copy `name` is now moved.
pub fn consume_var(
    name: &String,
    sp: Span,
    types: &Vec<(String, Ty)>,
    locals: &Vec<String>,
    moved: &mut Vec<String>,
    plan: &mut MovePlan,
    counts: &mut Vec<(String, usize)>,
    in_loop: bool,
)
    ensures
        plan_grows(*old(plan), *final(plan)),
        keeps(old(moved)@, final(moved)@),
        count_of(old(counts)@, name@) > 1 ==> has_key(final(plan).auto_clones@, crate::typed::span_key(sp)),
        in_set(old(moved)@, name@) && (exists|i: int| 0 <= i < types@.len() && (#[trigger] types@[i]).0@ == name@)
            && !is_copy(named_ty_spec(types@, name@)) ==> has_key(final(plan).auto_clones@, crate::typed::span_key(sp)),
{
    let key = SpanKey::new(&sp);
    if in_loop && !contains_string(locals, name) {
        if let Some(t) = named_ty(types, name) {
            if !is_copy_type(t) {
                let _ = add_clone(plan, key);
                dec_use_count(counts, name);
                return;
            }
        }
    }
    proof { lemma_named_ty_spec(types@, name@); }
    let remaining = remaining_uses(counts, name);
    if remaining > 1 {
        let _ = add_clone(plan, key);
        dec_use_count(counts, name);
        return;
    }
    if should_consume_var(name, types, moved) {
        let _ = add_clone(plan, key);
    } else {
        match named_ty(types, name) {
            Some(t) => {
                if !is_copy_type(t) {
                    set_add(moved, name);
                }
            },
            None => {},
        }
    }
    dec_use_count(counts, name);
}

/// The type recorded last for `name`.
pub open spec fn named_ty_spec(tys: Seq<(String, Ty)>, name: Seq<char>) -> Ty {
    tys[choose|i: int| 0 <= i < tys.len() && (#[trigger] tys[i]).0@ == name
        && forall|j: int| i < j < tys.len() ==> (#[trigger] tys[j]).0@ != name].1
}

proof fn lemma_named_ty_spec(tys: Seq<(String, Ty)>, name: Seq<char>)
    ensures
        forall|i: int| 0 <= i < tys.len() && tys[i].0@ == name
            && (forall|j: int| i < j < tys.len() ==> (#[trigger] tys[j]).0@ != name)
            ==> #[trigger] tys[i].1 == named_ty_spec(tys, name),
{
    assert forall|i: int| 0 <= i < tys.len() && tys[i].0@ == name
        && (forall|j: int| i < j < tys.len() ==> (#[trigger] tys[j]).0@ != name)
        implies #[trigger] tys[i].1 == named_ty_spec(tys, name) by {
        let c = choose|c: int| 0 <= c < tys.len() && (#[trigger] tys[c]).0@ == name
            && forall|j: int| c < j < tys.len() ==> (#[trigger] tys[j]).0@ != name;
        if c < i {
            assert(tys[i].0@ != name);
        } else if c > i {
            assert(tys[c].0@ != name);
        }
    }
}

/// Whether a use of `name` must be a clone because it was moved before:
/// its last recorded type is not Copy and it has been moved.
pub fn should_consume_var(name: &String, types: &Vec<(String, Ty)>, moved: &Vec<String>) -> (b: bool)
    ensures
        b ==> in_set(moved@, name@),
        in_set(moved@, name@) && (exists|i: int| 0 <= i < types@.len() && (#[trigger] types@[i]).0@ == name@)
            && !is_copy(named_ty_spec(types@, name@)) ==> b,
{
    match last_named(types, name) {
        Some(k) => {
            proof { lemma_named_ty_spec(types@, name@); }
            if is_copy_type(&types[k].1) {
                return false;
            }
            contains_string(moved, name)
        },
        None => false,
    }
}

/// The union of two sets of names.
fn union_into(target: &mut Vec<String>, other: &Vec<String>)
    ensures
        keeps(old(target)@, final(target)@),
        keeps(other@, final(target)@),
{
    let ghost t0 = target@;
    let mut i: usize = 0;
    while i < other.len()
        invariant
            i <= other@.len(),
            keeps(t0, target@),
            forall|j: int| 0 <= j < i ==> #[trigger] in_set(target@, other@[j]@),
        decreases other@.len() - i,
    {
        set_add(target, &other[i]);
        i = i + 1;
    }
    proof {
        assert forall|x: Seq<char>| #[trigger] in_set(other@, x) implies in_set(target@, x) by {
            let j = choose|j: int| 0 <= j < other@.len() && (#[trigger] other@[j])@ == x;
            assert(in_set(target@, other@[j]@));
        }
    }
}

/// Walks `expr` in evaluation order, moving variables and planning clones
/// where a variable would be used after a move (see `consume_var`). The
/// two branches of an `if` start from the same moved set and are joined
/// after it; a lambda starts from nothing moved; loop bodies count as in a
/// loop.
pub fn analyze_moves_expr(
    expr: &Expr,
    types_map: &Vec<(SpanKey, Ty)>,
    env: &FnEnv,
    types: &mut Vec<(String, Ty)>,
    locals: &mut Vec<String>,
    moved: &mut Vec<String>,
    plan: &mut MovePlan,
    counts: &mut Vec<(String, usize)>,
    in_loop: bool,
)
    requires
        env.wf(),
    ensures
        plan_grows(*old(plan), *final(plan)),
        keeps(old(moved)@, final(moved)@),
        *expr matches Expr::Var(name, sp) ==> {
            &&& count_of(old(counts)@, name@) > 1 ==> has_key(final(plan).auto_clones@, crate::typed::span_key(sp))
            &&& in_set(old(moved)@, name@) && (exists|i: int| 0 <= i < old(types)@.len() && (#[trigger] old(types)@[i]).0@ == name@)
                && !is_copy(named_ty_spec(old(types)@, name@)) ==> has_key(final(plan).auto_clones@, crate::typed::span_key(sp))
        },
    decreases expr, 1nat,
{
    match expr {
        Expr::Var(name, sp) => {
            consume_var(name, *sp, types, locals, moved, plan, counts, in_loop);
        },
        Expr::Ascribe { expr: inner, .. } | Expr::Cast { expr: inner, .. } | Expr::Assign { expr: inner, .. } => {
            analyze_moves_expr(inner, types_map, env, types, locals, moved, plan, counts, in_loop);
        },
        Expr::Let { bindings, body, .. } => {
            moves_bindings(bindings, types_map, env, types, locals, moved, plan, counts, in_loop);
            analyze_moves_expr(body, types_map, env, types, locals, moved, plan, counts, in_loop);
        },
        Expr::Lambda { params, body, .. } => {
            let mut nested_locals = clone_strings(locals);
            let mut nested_types = clone_named_tys(types);
            let mut i: usize = 0;
            while i < params.len()
                invariant
                    i <= params@.len(),
                decreases params@.len() - i,
            {
                set_add(&mut nested_locals, &params[i].rust_name);
                set_named_ty(&mut nested_types, &params[i].rust_name, Ty::Unknown);
                i = i + 1;
            }
            let mut nested_moved: Vec<String> = Vec::new();
            analyze_moves_expr(body, types_map, env, &mut nested_types, &mut nested_locals, &mut nested_moved,
                plan, counts, in_loop);
        },
        Expr::Call { op, args, .. } => {
            let modes = match env.get_arity(op.as_str(), args.len()) {
                Some(sig) => Some(&sig.param_modes),
                None => None,
            };
            moves_args(args, modes, types_map, env, types, locals, moved, plan, counts, in_loop);
        },
        Expr::CallDyn { args, .. } | Expr::Do { exprs: args, .. } | Expr::VecLit { elems: args, .. }
        | Expr::SetLit { elems: args, .. } => {
            moves_args(args, None, types_map, env, types, locals, moved, plan, counts, in_loop);
        },
        Expr::MethodCall { base, args, .. } => {
            analyze_moves_expr(base, types_map, env, types, locals, moved, plan, counts, in_loop);
            moves_args(args, None, types_map, env, types, locals, moved, plan, counts, in_loop);
        },
        Expr::Field { base, .. } => {
            analyze_moves_borrow(base, types_map, env, types, locals, moved, plan, counts, in_loop);
        },
        Expr::If { cond, then_br, else_br, .. } => {
            analyze_moves_expr(cond, types_map, env, types, locals, moved, plan, counts, in_loop);
            let mut moved_then = clone_strings(moved);
            analyze_moves_expr(then_br, types_map, env, types, locals, &mut moved_then, plan, counts, in_loop);
            match else_br {
                Some(e) => {
                    let mut moved_else = clone_strings(moved);
                    analyze_moves_expr(e, types_map, env, types, locals, &mut moved_else, plan, counts, in_loop);
                    union_into(moved, &moved_then);
                    union_into(moved, &moved_else);
                },
                None => {
                    union_into(moved, &moved_then);
                },
            }
        },
        Expr::Loop { body, .. } | Expr::While { body, .. } | Expr::For { body, .. } => {
            analyze_moves_expr(body, types_map, env, types, locals, moved, plan, counts, true);
        },
        Expr::Match { scrutinee, arms, .. } => {
            analyze_moves_expr(scrutinee, types_map, env, types, locals, moved, plan, counts, in_loop);
            moves_arms(arms, types_map, env, types, locals, moved, plan, counts, in_loop);
        },
        Expr::MapLit { entries, .. } => {
            moves_entries(entries, types_map, env, types, locals, moved, plan, counts, in_loop);
        },
        Expr::Pair { key, val, .. } => {
            analyze_moves_expr(key, types_map, env, types, locals, moved, plan, counts, in_loop);
            analyze_moves_expr(val, types_map, env, types, locals, moved, plan, counts, in_loop);
        },
        Expr::Break { value, .. } => {
            if let Some(v) = value {
                analyze_moves_expr(v, types_map, env, types, locals, moved, plan, counts, in_loop);
            }
        },
        _ => {},
    }
}

/// As `analyze_moves_expr`, for an expression that is only borrowed: a
/// variable is not moved, but is cloned (with a warning) when it was moved
/// before.
fn analyze_moves_borrow(
    expr: &Expr,
    types_map: &Vec<(SpanKey, Ty)>,
    env: &FnEnv,
    types: &mut Vec<(String, Ty)>,
    locals: &mut Vec<String>,
    moved: &mut Vec<String>,
    plan: &mut MovePlan,
    counts: &mut Vec<(String, usize)>,
    in_loop: bool,
)
    requires
        env.wf(),
    ensures
        plan_grows(*old(plan), *final(plan)),
        keeps(old(moved)@, final(moved)@),
    decreases expr, 2nat,
{
    match expr {
        Expr::Var(name, sp) => {
            if should_consume_var(name, types, moved) {
                let key = SpanKey::new(sp);
                if add_clone(plan, key) {
                    let msg = concat3("auto-cloned '", name.as_str(), "' to avoid move; consider darcy.core/clone");
                    plan.warnings.push(Diag::from_message(msg).with_span(*sp));
                }
            }
        },
        _ => analyze_moves_expr(expr, types_map, env, types, locals, moved, plan, counts, in_loop),
    }
}

fn moves_bindings(
    bs: &Vec<crate::ast::LetBinding>,
    types_map: &Vec<(SpanKey, Ty)>,
    env: &FnEnv,
    types: &mut Vec<(String, Ty)>,
    locals: &mut Vec<String>,
    moved: &mut Vec<String>,
    plan: &mut MovePlan,
    counts: &mut Vec<(String, usize)>,
    in_loop: bool,
)
    requires
        env.wf(),
    ensures
        plan_grows(*old(plan), *final(plan)),
        keeps(old(moved)@, final(moved)@),
    decreases bs, 0nat,
{
    let ghost p0 = *plan;
    let ghost m0 = moved@;
    let mut i: usize = 0;
    while i < bs.len()
        invariant
            env.wf(),
            i <= bs@.len(),
            plan_grows(p0, *plan),
            keeps(m0, moved@),
        decreases bs@.len() - i,
    {
        analyze_moves_expr(&bs[i].expr, types_map, env, types, locals, moved, plan, counts, in_loop);
        let t = match lookup_type(types_map, SpanKey::new(&bs[i].expr.span())) {
            Some(t) => clone_ty(t),
            None => Ty::Unknown,
        };
        set_named_ty(types, &bs[i].rust_name, t);
        set_add(locals, &bs[i].rust_name);
        i = i + 1;
    }
}

fn moves_args(
    args: &Vec<Expr>,
    modes: Option<&Vec<ParamMode>>,
    types_map: &Vec<(SpanKey, Ty)>,
    env: &FnEnv,
    types: &mut Vec<(String, Ty)>,
    locals: &mut Vec<String>,
    moved: &mut Vec<String>,
    plan: &mut MovePlan,
    counts: &mut Vec<(String, usize)>,
    in_loop: bool,
)
    requires
        env.wf(),
    ensures
        plan_grows(*old(plan), *final(plan)),
        keeps(old(moved)@, final(moved)@),
    decreases args, 0nat,
{
    let ghost p0 = *plan;
    let ghost m0 = moved@;
    let mut i: usize = 0;
    while i < args.len()
        invariant
            env.wf(),
            i <= args@.len(),
            plan_grows(p0, *plan),
            keeps(m0, moved@),
        decreases args@.len() - i,
    {
        let m = mode_at(modes, i);
        if m == ParamMode::ByRef || m == ParamMode::ByRefNoAmp {
            analyze_moves_borrow(&args[i], types_map, env, types, locals, moved, plan, counts, in_loop);
        } else {
            analyze_moves_expr(&args[i], types_map, env, types, locals, moved, plan, counts, in_loop);
        }
        i = i + 1;
    }
}

fn moves_arms(
    arms: &Vec<crate::ast::MatchArm>,
    types_map: &Vec<(SpanKey, Ty)>,
    env: &FnEnv,
    types: &mut Vec<(String, Ty)>,
    locals: &mut Vec<String>,
    moved: &mut Vec<String>,
    plan: &mut MovePlan,
    counts: &mut Vec<(String, usize)>,
    in_loop: bool,
)
    requires
        env.wf(),
    ensures
        plan_grows(*old(plan), *final(plan)),
        keeps(old(moved)@, final(moved)@),
    decreases arms, 0nat,
{
    let ghost p0 = *plan;
    let ghost m0 = moved@;
    let mut i: usize = 0;
    while i < arms.len()
        invariant
            env.wf(),
            i <= arms@.len(),
            plan_grows(p0, *plan),
            keeps(m0, moved@),
        decreases arms@.len() - i,
    {
        analyze_moves_expr(&arms[i].body, types_map, env, types, locals, moved, plan, counts, in_loop);
        i = i + 1;
    }
}

fn moves_entries(
    es: &Vec<(Expr, Expr)>,
    types_map: &Vec<(SpanKey, Ty)>,
    env: &FnEnv,
    types: &mut Vec<(String, Ty)>,
    locals: &mut Vec<String>,
    moved: &mut Vec<String>,
    plan: &mut MovePlan,
    counts: &mut Vec<(String, usize)>,
    in_loop: bool,
)
    requires
        env.wf(),
    ensures
        plan_grows(*old(plan), *final(plan)),
        keeps(old(moved)@, final(moved)@),
    decreases es, 0nat,
{
    let ghost p0 = *plan;
    let ghost m0 = moved@;
    let mut i: usize = 0;
    while i < es.len()
        invariant
            env.wf(),
            i <= es@.len(),
            plan_grows(p0, *plan),
            keeps(m0, moved@),
        decreases es@.len() - i,
    {
        analyze_moves_expr(&es[i].0, types_map, env, types, locals, moved, plan, counts, in_loop);
        analyze_moves_expr(&es[i].1, types_map, env, types, locals, moved, plan, counts, in_loop);
        i = i + 1;
    }
}

/// The clones and warnings for every non-extern function: uses are first
/// counted, then walked in order with nothing moved at the start.
pub fn analyze_moves(fns: &Vec<TypedFn>, env: &FnEnv) -> (plan: MovePlan)
    requires
        env.wf(),
{
    let mut plan = MovePlan { auto_clones: Vec::new(), warnings: Vec::new() };
    let mut i: usize = 0;
    while i < fns.len()
        invariant
            env.wf(),
            i <= fns@.len(),
        decreases fns@.len() - i,
    {
        let f = &fns[i];
        if !f.def.extern_ {
            let mut counts: Vec<(String, usize)> = Vec::new();
            let mut count_types = clone_named_tys(&f.param_tys);
            let mut count_locals: Vec<String> = Vec::new();
            count_consumed_uses(&f.body.expr, &f.body.types, env, &mut count_types, &mut count_locals, &mut counts);
            let mut moved: Vec<String> = Vec::new();
            let mut locals: Vec<String> = Vec::new();
            let mut types = clone_named_tys(&f.param_tys);
            analyze_moves_expr(&f.body.expr, &f.body.types, env, &mut types, &mut locals, &mut moved, &mut plan,
                &mut counts, false);
        }
        i = i + 1;
    }
    plan
}

} // verus!
