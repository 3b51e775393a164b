//! Type inference: inference types with variables, a substitution kept
//! fully resolved, and unification.

use vstd::prelude::*;
use crate::ast::{MapKind, Ty};
use crate::diag::{Diag, DslResult, Span};
use crate::typed::CastHint;
use crate::text::{concat2, concat3, concat5, copy, is_lit, u64_decimal_chars, string_from_chars};

verus! {

/// A type during inference: a variable, or a type built from others.
#[derive(Debug)]
pub enum InferTy {
    Var(u32),
    Named(String),
    Vec(Box<InferTy>),
    SetOf(Box<InferTy>),
    Option(Box<InferTy>),
    Result(Box<InferTy>, Box<InferTy>),
    MapOf(MapKind, Box<InferTy>, Box<InferTy>),
    Fn(Vec<InferTy>, Box<InferTy>),
}

/// Whether `v` occurs in `t`.
pub open spec fn mentions(t: InferTy, v: u32) -> bool
    decreases t,
{
    match t {
        InferTy::Var(id) => id == v,
        InferTy::Named(_) => false,
        InferTy::Vec(x) => mentions(*x, v),
        InferTy::SetOf(x) => mentions(*x, v),
        InferTy::Option(x) => mentions(*x, v),
        InferTy::Result(x, y) => mentions(*x, v) || mentions(*y, v),
        InferTy::MapOf(_, x, y) => mentions(*x, v) || mentions(*y, v),
        InferTy::Fn(ps, r) => mentions(*r, v) || exists|i: int| 0 <= i < ps@.len() && mentions(#[trigger] ps@[i], v),
    }
}

/// An inference type as a value, names taken by their spelling.
pub enum TyView {
    Var(u32),
    Named(Seq<char>),
    Vec(Box<TyView>),
    SetOf(Box<TyView>),
    Option(Box<TyView>),
    Result(Box<TyView>, Box<TyView>),
    MapOf(MapKind, Box<TyView>, Box<TyView>),
    Fn(Seq<TyView>, Box<TyView>),
}

/// The value of an inference type.
pub open spec fn view_of(t: InferTy) -> TyView
    decreases t,
{
    match t {
        InferTy::Var(id) => TyView::Var(id),
        InferTy::Named(n) => TyView::Named(n@),
        InferTy::Vec(x) => TyView::Vec(Box::new(view_of(*x))),
        InferTy::SetOf(x) => TyView::SetOf(Box::new(view_of(*x))),
        InferTy::Option(x) => TyView::Option(Box::new(view_of(*x))),
        InferTy::Result(x, y) => TyView::Result(Box::new(view_of(*x)), Box::new(view_of(*y))),
        InferTy::MapOf(k, x, y) => TyView::MapOf(k, Box::new(view_of(*x)), Box::new(view_of(*y))),
        InferTy::Fn(ps, r) => TyView::Fn(views_of(ps@), Box::new(view_of(*r))),
    }
}

/// The values of a sequence of inference types.
pub open spec fn views_of(ps: Seq<InferTy>) -> Seq<TyView>
    decreases ps,
{
    if ps.len() == 0 {
        seq![]
    } else {
        views_of(ps.drop_last()).push(view_of(ps.last()))
    }
}

/// `views_of` is the value of each element, in order.
pub proof fn lemma_views_of(ps: Seq<InferTy>)
    ensures
        views_of(ps).len() == ps.len(),
        forall|i: int| 0 <= i < ps.len() ==> #[trigger] views_of(ps)[i] == view_of(ps[i]),
    decreases ps.len(),
{
    if ps.len() > 0 {
        lemma_views_of(ps.drop_last());
        assert forall|i: int| 0 <= i < ps.len() implies #[trigger] views_of(ps)[i] == view_of(ps[i]) by {
            if i < ps.len() - 1 {
                assert(views_of(ps)[i] == views_of(ps.drop_last())[i]);
                assert(ps.drop_last()[i] == ps[i]);
            }
        }
    }
}

/// Whether the variable `v` occurs in a type value.
pub open spec fn vmentions(t: TyView, v: u32) -> bool
    decreases t,
{
    match t {
        TyView::Var(id) => id == v,
        TyView::Named(_) => false,
        TyView::Vec(x) => vmentions(*x, v),
        TyView::SetOf(x) => vmentions(*x, v),
        TyView::Option(x) => vmentions(*x, v),
        TyView::Result(x, y) => vmentions(*x, v) || vmentions(*y, v),
        TyView::MapOf(_, x, y) => vmentions(*x, v) || vmentions(*y, v),
        TyView::Fn(ps, r) => vmentions(*r, v) || vmentions_any(ps, v),
    }
}

/// Whether the variable `v` occurs in one of the type values `ps`.
pub open spec fn vmentions_any(ps: Seq<TyView>, v: u32) -> bool
    decreases ps,
{
    ps.len() > 0 && (vmentions_any(ps.drop_last(), v) || vmentions(ps.last(), v))
}

/// `vmentions_any` holds when some element mentions the variable.
pub proof fn lemma_vmentions_any(ps: Seq<TyView>, v: u32)
    ensures
        vmentions_any(ps, v) == exists|i: int| 0 <= i < ps.len() && vmentions(#[trigger] ps[i], v),
    decreases ps.len(),
{
    if ps.len() > 0 {
        lemma_vmentions_any(ps.drop_last(), v);
        if vmentions_any(ps, v) {
            if vmentions(ps.last(), v) {
                assert(vmentions(ps[ps.len() - 1], v));
            } else {
                let i = choose|i: int| 0 <= i < ps.drop_last().len() && vmentions(#[trigger] ps.drop_last()[i], v);
                assert(ps[i] == ps.drop_last()[i]);
            }
        }
        if exists|i: int| 0 <= i < ps.len() && vmentions(#[trigger] ps[i], v) {
            let i = choose|i: int| 0 <= i < ps.len() && vmentions(#[trigger] ps[i], v);
            if i < ps.len() - 1 {
                assert(ps.drop_last()[i] == ps[i]);
            }
        }
    }
}

/// A variable occurs in a type exactly when it occurs in its value.
pub proof fn lemma_mentions_view(t: InferTy, v: u32)
    ensures
        mentions(t, v) == vmentions(view_of(t), v),
    decreases t,
{
    match t {
        InferTy::Var(id) => {
            assert(mentions(t, v) == vmentions(view_of(t), v));
        },
        InferTy::Named(_) => {
            assert(mentions(t, v) == vmentions(view_of(t), v));
        },
        InferTy::Vec(x) => {
            lemma_mentions_view(*x, v);
            assert(mentions(t, v) == vmentions(view_of(t), v));
        },
        InferTy::SetOf(x) => {
            lemma_mentions_view(*x, v);
            assert(mentions(t, v) == vmentions(view_of(t), v));
        },
        InferTy::Option(x) => {
            lemma_mentions_view(*x, v);
            assert(mentions(t, v) == vmentions(view_of(t), v));
        },
        InferTy::Result(x, y) => {
            lemma_mentions_view(*x, v);
            lemma_mentions_view(*y, v);
            assert(mentions(t, v) == vmentions(view_of(t), v));
        },
        InferTy::MapOf(_, x, y) => {
            lemma_mentions_view(*x, v);
            lemma_mentions_view(*y, v);
            assert(mentions(t, v) == vmentions(view_of(t), v));
        },
        InferTy::Fn(ps, r) => {
            lemma_mentions_view(*r, v);
            lemma_views_of(ps@);
            let vs = views_of(ps@);
            assert(view_of(t) == TyView::Fn(vs, Box::new(view_of(*r))));
            lemma_vmentions_any(vs, v);
            if mentions(t, v) {
                if !mentions(*r, v) {
                    let i = choose|i: int| 0 <= i < ps@.len() && mentions(#[trigger] ps@[i], v);
                    lemma_mentions_view(ps@[i], v);
                    assert(vs[i] == view_of(ps@[i]));
                    assert(vmentions(vs[i], v));
                }
                assert(vmentions(view_of(t), v));
            }
            if vmentions(view_of(t), v) {
                if !vmentions(view_of(*r), v) {
                    let i = choose|i: int| 0 <= i < vs.len() && vmentions(#[trigger] vs[i], v);
                    lemma_mentions_view(ps@[i], v);
                    assert(vs[i] == view_of(ps@[i]));
                    assert(mentions(ps@[i], v));
                }
                assert(mentions(t, v));
            }
        },
    }
}

/// Whether the variable `v` is bound in the substitution `s`.
pub open spec fn bound_in(s: Seq<Option<InferTy>>, v: u32) -> bool {
    (v as int) < s.len() && s[v as int] is Some
}

/// No variable of the type value `t` is bound in `s`.
pub open spec fn free_of_bound(s: Seq<Option<InferTy>>, t: TyView) -> bool {
    forall|w: u32| #[trigger] vmentions(t, w) ==> !bound_in(s, w)
}

/// Every variable of the type value `t` has an entry in `s`.
pub open spec fn in_range(s: Seq<Option<InferTy>>, t: TyView) -> bool {
    forall|w: u32| #[trigger] vmentions(t, w) ==> (w as int) < s.len()
}

/// How unifying two types that resolve to the named types `a` and `b` ends:
/// it succeeds exactly when the names are the same, and otherwise names
/// both in its message.
pub open spec fn named_pair_result(a: TyView, b: TyView, r: DslResult<()>) -> bool {
    match (a, b) {
        (TyView::Named(x), TyView::Named(y)) => (r is Ok <==> x == y)
            && (r is Err ==> r->Err_0.message@ == "type mismatch: '"@ + x + "' vs '"@ + y + "'"@),
        _ => true,
    }
}

/// The value of `t` with the substitution `s` applied once: a bound
/// variable stands for the value of its binding.
pub open spec fn apply(s: Seq<Option<InferTy>>, t: InferTy) -> TyView
    decreases t,
{
    match t {
        InferTy::Var(id) => if bound_in(s, id) { view_of(s[id as int].unwrap()) } else { TyView::Var(id) },
        InferTy::Named(n) => TyView::Named(n@),
        InferTy::Vec(x) => TyView::Vec(Box::new(apply(s, *x))),
        InferTy::SetOf(x) => TyView::SetOf(Box::new(apply(s, *x))),
        InferTy::Option(x) => TyView::Option(Box::new(apply(s, *x))),
        InferTy::Result(x, y) => TyView::Result(Box::new(apply(s, *x)), Box::new(apply(s, *y))),
        InferTy::MapOf(k, x, y) => TyView::MapOf(k, Box::new(apply(s, *x)), Box::new(apply(s, *y))),
        InferTy::Fn(ps, r) => TyView::Fn(apply_all(s, ps@), Box::new(apply(s, *r))),
    }
}

/// `apply` on each element.
pub open spec fn apply_all(s: Seq<Option<InferTy>>, ps: Seq<InferTy>) -> Seq<TyView>
    decreases ps,
{
    if ps.len() == 0 {
        seq![]
    } else {
        apply_all(s, ps.drop_last()).push(apply(s, ps.last()))
    }
}

/// `apply_all` is `apply` on each element, in order.
pub proof fn lemma_apply_all(s: Seq<Option<InferTy>>, ps: Seq<InferTy>)
    ensures
        apply_all(s, ps).len() == ps.len(),
        forall|i: int| 0 <= i < ps.len() ==> #[trigger] apply_all(s, ps)[i] == apply(s, ps[i]),
    decreases ps.len(),
{
    if ps.len() > 0 {
        lemma_apply_all(s, ps.drop_last());
        assert forall|i: int| 0 <= i < ps.len() implies #[trigger] apply_all(s, ps)[i] == apply(s, ps[i]) by {
            if i < ps.len() - 1 {
                assert(apply_all(s, ps)[i] == apply_all(s, ps.drop_last())[i]);
                assert(ps.drop_last()[i] == ps[i]);
            }
        }
    }
}

/// The type value `t` with the variable `v` replaced by `by`.
pub open spec fn subst(t: TyView, v: u32, by: TyView) -> TyView
    decreases t,
{
    match t {
        TyView::Var(id) => if id == v { by } else { TyView::Var(id) },
        TyView::Named(n) => TyView::Named(n),
        TyView::Vec(x) => TyView::Vec(Box::new(subst(*x, v, by))),
        TyView::SetOf(x) => TyView::SetOf(Box::new(subst(*x, v, by))),
        TyView::Option(x) => TyView::Option(Box::new(subst(*x, v, by))),
        TyView::Result(x, y) => TyView::Result(Box::new(subst(*x, v, by)), Box::new(subst(*y, v, by))),
        TyView::MapOf(k, x, y) => TyView::MapOf(k, Box::new(subst(*x, v, by)), Box::new(subst(*y, v, by))),
        TyView::Fn(ps, r) => TyView::Fn(subst_all(ps, v, by), Box::new(subst(*r, v, by))),
    }
}

/// `subst` on each element.
pub open spec fn subst_all(ps: Seq<TyView>, v: u32, by: TyView) -> Seq<TyView>
    decreases ps,
{
    if ps.len() == 0 {
        seq![]
    } else {
        subst_all(ps.drop_last(), v, by).push(subst(ps.last(), v, by))
    }
}

/// `subst_all` is `subst` on each element, in order.
pub proof fn lemma_subst_all(ps: Seq<TyView>, v: u32, by: TyView)
    ensures
        subst_all(ps, v, by).len() == ps.len(),
        forall|i: int| 0 <= i < ps.len() ==> #[trigger] subst_all(ps, v, by)[i] == subst(ps[i], v, by),
    decreases ps.len(),
{
    if ps.len() > 0 {
        lemma_subst_all(ps.drop_last(), v, by);
        assert forall|i: int| 0 <= i < ps.len() implies #[trigger] subst_all(ps, v, by)[i] == subst(ps[i], v, by) by {
            if i < ps.len() - 1 {
                assert(subst_all(ps, v, by)[i] == subst_all(ps.drop_last(), v, by)[i]);
                assert(ps.drop_last()[i] == ps[i]);
            }
        }
    }
}

/// Every variable of `t` is free (unbound) in `s`.
pub open spec fn unbound_vars(s: Seq<Option<InferTy>>, t: InferTy) -> bool {
    forall|w: u32| #[trigger] mentions(t, w) ==> !bound_in(s, w)
}

/// Every variable of `t` has an entry in `s`.
pub open spec fn vars_in_range(s: Seq<Option<InferTy>>, t: InferTy) -> bool {
    forall|w: u32| #[trigger] mentions(t, w) ==> (w as int) < s.len()
}

/// A substitution in solved form: each binding mentions only unbound
/// variables.
pub open spec fn subs_ok(s: Seq<Option<InferTy>>) -> bool {
    forall|i: int| 0 <= i < s.len() && (#[trigger] s[i]) is Some ==> unbound_vars(s, s[i].unwrap())
}

/// Each binding mentions only variables that have entries.
pub open spec fn subs_ranged(s: Seq<Option<InferTy>>) -> bool {
    forall|i: int| 0 <= i < s.len() && (#[trigger] s[i]) is Some ==> vars_in_range(s, s[i].unwrap())
}

/// A type whose variables are all unbound is its own value under `s`.
pub proof fn lemma_apply_fixed(s: Seq<Option<InferTy>>, t: InferTy)
    requires
        unbound_vars(s, t),
    ensures
        apply(s, t) == view_of(t),
    decreases t,
{
    match t {
        InferTy::Var(id) => {
            assert(mentions(t, id));
        },
        InferTy::Vec(x) => {
            assert forall|w: u32| #[trigger] mentions(*x, w) implies !bound_in(s, w) by { assert(mentions(t, w)); }
            lemma_apply_fixed(s, *x);
        },
        InferTy::SetOf(x) => {
            assert forall|w: u32| #[trigger] mentions(*x, w) implies !bound_in(s, w) by { assert(mentions(t, w)); }
            lemma_apply_fixed(s, *x);
        },
        InferTy::Option(x) => {
            assert forall|w: u32| #[trigger] mentions(*x, w) implies !bound_in(s, w) by { assert(mentions(t, w)); }
            lemma_apply_fixed(s, *x);
        },
        InferTy::Result(x, y) => {
            assert forall|w: u32| #[trigger] mentions(*x, w) implies !bound_in(s, w) by { assert(mentions(t, w)); }
            assert forall|w: u32| #[trigger] mentions(*y, w) implies !bound_in(s, w) by { assert(mentions(t, w)); }
            lemma_apply_fixed(s, *x);
            lemma_apply_fixed(s, *y);
        },
        InferTy::MapOf(_, x, y) => {
            assert forall|w: u32| #[trigger] mentions(*x, w) implies !bound_in(s, w) by { assert(mentions(t, w)); }
            assert forall|w: u32| #[trigger] mentions(*y, w) implies !bound_in(s, w) by { assert(mentions(t, w)); }
            lemma_apply_fixed(s, *x);
            lemma_apply_fixed(s, *y);
        },
        InferTy::Fn(ps, r) => {
            assert forall|w: u32| #[trigger] mentions(*r, w) implies !bound_in(s, w) by { assert(mentions(t, w)); }
            lemma_apply_fixed(s, *r);
            lemma_apply_all(s, ps@);
            lemma_views_of(ps@);
            assert forall|i: int| 0 <= i < ps@.len() implies #[trigger] apply_all(s, ps@)[i] == views_of(ps@)[i] by {
                assert forall|w: u32| #[trigger] mentions(ps@[i], w) implies !bound_in(s, w) by { assert(mentions(t, w)); }
                lemma_apply_fixed(s, ps@[i]);
            }
            assert(apply_all(s, ps@) =~= views_of(ps@));
        },
        InferTy::Named(_) => {},
    }
}

/// Under a substitution in solved form, the value of a type mentions only
/// unbound variables, each with an entry or mentioned by the type itself.
pub proof fn lemma_apply_vars(s: Seq<Option<InferTy>>, t: InferTy, w: u32)
    requires
        subs_ok(s),
        vmentions(apply(s, t), w),
    ensures
        !bound_in(s, w),
        subs_ranged(s) ==> (w as int) < s.len() || mentions(t, w),
    decreases t,
{
    match t {
        InferTy::Var(id) => {
            if bound_in(s, id) {
                let b = s[id as int].unwrap();
                assert(s[id as int] is Some);
                lemma_mentions_view(b, w);
            }
        },
        InferTy::Vec(x) => lemma_apply_vars(s, *x, w),
        InferTy::SetOf(x) => lemma_apply_vars(s, *x, w),
        InferTy::Option(x) => lemma_apply_vars(s, *x, w),
        InferTy::Result(x, y) => {
            if vmentions(apply(s, *x), w) { lemma_apply_vars(s, *x, w); } else { lemma_apply_vars(s, *y, w); }
        },
        InferTy::MapOf(_, x, y) => {
            if vmentions(apply(s, *x), w) { lemma_apply_vars(s, *x, w); } else { lemma_apply_vars(s, *y, w); }
        },
        InferTy::Fn(ps, r) => {
            if vmentions(apply(s, *r), w) {
                lemma_apply_vars(s, *r, w);
            } else {
                lemma_vmentions_any(apply_all(s, ps@), w);
                lemma_apply_all(s, ps@);
                let i = choose|i: int| 0 <= i < apply_all(s, ps@).len() && vmentions(#[trigger] apply_all(s, ps@)[i], w);
                lemma_apply_vars(s, ps@[i], w);
                if mentions(ps@[i], w) {
                    assert(mentions(t, w));
                }
            }
        },
        InferTy::Named(_) => {},
    }
}

/// Replacing a variable that does not occur changes nothing.
pub proof fn lemma_subst_fixed(t: TyView, v: u32, by: TyView)
    requires
        !vmentions(t, v),
    ensures
        subst(t, v, by) == t,
    decreases t,
{
    match t {
        TyView::Vec(x) => lemma_subst_fixed(*x, v, by),
        TyView::SetOf(x) => lemma_subst_fixed(*x, v, by),
        TyView::Option(x) => lemma_subst_fixed(*x, v, by),
        TyView::Result(x, y) => {
            lemma_subst_fixed(*x, v, by);
            lemma_subst_fixed(*y, v, by);
        },
        TyView::MapOf(_, x, y) => {
            lemma_subst_fixed(*x, v, by);
            lemma_subst_fixed(*y, v, by);
        },
        TyView::Fn(ps, r) => {
            lemma_subst_fixed(*r, v, by);
            lemma_subst_all(ps, v, by);
            lemma_vmentions_any(ps, v);
            assert forall|i: int| 0 <= i < ps.len() implies #[trigger] subst_all(ps, v, by)[i] == ps[i] by {
                lemma_subst_fixed(ps[i], v, by);
            }
            assert(subst_all(ps, v, by) =~= ps);
        },
        _ => {},
    }
}

/// A variable of `subst(t, v, by)` comes from `t` (and is not `v`) or
/// from `by`.
pub proof fn lemma_subst_vars(t: TyView, v: u32, by: TyView, w: u32)
    requires
        vmentions(subst(t, v, by), w),
    ensures
        (vmentions(t, w) && w != v) || vmentions(by, w),
    decreases t,
{
    match t {
        TyView::Vec(x) => lemma_subst_vars(*x, v, by, w),
        TyView::SetOf(x) => lemma_subst_vars(*x, v, by, w),
        TyView::Option(x) => lemma_subst_vars(*x, v, by, w),
        TyView::Result(x, y) => {
            if vmentions(subst(*x, v, by), w) { lemma_subst_vars(*x, v, by, w); } else { lemma_subst_vars(*y, v, by, w); }
        },
        TyView::MapOf(_, x, y) => {
            if vmentions(subst(*x, v, by), w) { lemma_subst_vars(*x, v, by, w); } else { lemma_subst_vars(*y, v, by, w); }
        },
        TyView::Fn(ps, r) => {
            if vmentions(subst(*r, v, by), w) {
                lemma_subst_vars(*r, v, by, w);
            } else {
                lemma_subst_all(ps, v, by);
                lemma_vmentions_any(subst_all(ps, v, by), w);
                lemma_vmentions_any(ps, w);
                let i = choose|i: int| 0 <= i < subst_all(ps, v, by).len() && vmentions(#[trigger] subst_all(ps, v, by)[i], w);
                lemma_subst_vars(ps[i], v, by, w);
            }
        },
        _ => {},
    }
}

/// A new unbound entry leaves every type's value alone.
pub proof fn lemma_apply_push_none(s: Seq<Option<InferTy>>, x: InferTy)
    ensures
        apply(s.push(None), x) == apply(s, x),
    decreases x,
{
    let s1 = s.push(None);
    match x {
        InferTy::Var(u) => {
            if bound_in(s, u) {
                assert(s1[u as int] == s[u as int]);
            }
            if bound_in(s1, u) {
                assert(s1[u as int] == s[u as int]);
            }
        },
        InferTy::Vec(a) => lemma_apply_push_none(s, *a),
        InferTy::SetOf(a) => lemma_apply_push_none(s, *a),
        InferTy::Option(a) => lemma_apply_push_none(s, *a),
        InferTy::Result(a, b) => {
            lemma_apply_push_none(s, *a);
            lemma_apply_push_none(s, *b);
        },
        InferTy::MapOf(_, a, b) => {
            lemma_apply_push_none(s, *a);
            lemma_apply_push_none(s, *b);
        },
        InferTy::Fn(ps, r) => {
            lemma_apply_push_none(s, *r);
            lemma_apply_all(s, ps@);
            lemma_apply_all(s1, ps@);
            assert forall|i: int| 0 <= i < ps@.len() implies #[trigger] apply_all(s1, ps@)[i] == apply_all(s, ps@)[i] by {
                lemma_apply_push_none(s, ps@[i]);
            }
            assert(apply_all(s1, ps@) =~= apply_all(s, ps@));
        },
        InferTy::Named(_) => {},
    }
}

/// Types equal under the substitution `s1` are equal under `s2`.
pub open spec fn keeps_equal(s1: Seq<Option<InferTy>>, s2: Seq<Option<InferTy>>) -> bool {
    forall|x: InferTy, y: InferTy| #![trigger apply(s2, x), apply(s2, y)]
        apply(s1, x) == apply(s1, y) ==> apply(s2, x) == apply(s2, y)
}

/// `s2` is `s1` after binding the unbound variable `id` to `tb`: every other
/// binding has `tb` put for `id`.
pub open spec fn bound_after(s1: Seq<Option<InferTy>>, s2: Seq<Option<InferTy>>, id: u32, tb: InferTy) -> bool {
    &&& s2.len() == s1.len()
    &&& (id as int) < s1.len()
    &&& s1[id as int] is None
    &&& s2[id as int] == Some(tb)
    &&& forall|j: int| 0 <= j < s1.len() && j != id as int ==> ((#[trigger] s2[j]) is Some <==> s1[j] is Some)
    &&& forall|j: int| 0 <= j < s1.len() && j != id as int && (#[trigger] s1[j]) is Some ==>
        view_of(s2[j].unwrap()) == subst(view_of(s1[j].unwrap()), id, view_of(tb))
}

/// After binding `id` to `tb`, a type's value is its old value with `tb`
/// put for `id`.
pub proof fn lemma_apply_after_bind(s1: Seq<Option<InferTy>>, s2: Seq<Option<InferTy>>, id: u32, tb: InferTy, x: InferTy)
    requires
        bound_after(s1, s2, id, tb),
    ensures
        apply(s2, x) == subst(apply(s1, x), id, view_of(tb)),
    decreases x,
{
    match x {
        InferTy::Var(u) => {
            if u != id && bound_in(s1, u) {
                assert(s1[u as int] is Some);
            }
        },
        InferTy::Vec(a) => lemma_apply_after_bind(s1, s2, id, tb, *a),
        InferTy::SetOf(a) => lemma_apply_after_bind(s1, s2, id, tb, *a),
        InferTy::Option(a) => lemma_apply_after_bind(s1, s2, id, tb, *a),
        InferTy::Result(a, b) => {
            lemma_apply_after_bind(s1, s2, id, tb, *a);
            lemma_apply_after_bind(s1, s2, id, tb, *b);
        },
        InferTy::MapOf(_, a, b) => {
            lemma_apply_after_bind(s1, s2, id, tb, *a);
            lemma_apply_after_bind(s1, s2, id, tb, *b);
        },
        InferTy::Fn(ps, r) => {
            lemma_apply_after_bind(s1, s2, id, tb, *r);
            lemma_apply_all(s1, ps@);
            lemma_apply_all(s2, ps@);
            lemma_subst_all(apply_all(s1, ps@), id, view_of(tb));
            assert forall|i: int| 0 <= i < ps@.len() implies #[trigger] apply_all(s2, ps@)[i]
                == subst_all(apply_all(s1, ps@), id, view_of(tb))[i] by {
                lemma_apply_after_bind(s1, s2, id, tb, ps@[i]);
            }
            assert(apply_all(s2, ps@) =~= subst_all(apply_all(s1, ps@), id, view_of(tb)));
        },
        InferTy::Named(_) => {},
    }
}

/// A copy of an inference type.
pub fn clone_ity(t: &InferTy) -> (r: InferTy)
    ensures
        view_of(r) == view_of(*t),
    decreases t,
{
    match t {
        InferTy::Var(id) => InferTy::Var(*id),
        InferTy::Named(n) => InferTy::Named(copy(n)),
        InferTy::Vec(x) => InferTy::Vec(Box::new(clone_ity(x))),
        InferTy::SetOf(x) => InferTy::SetOf(Box::new(clone_ity(x))),
        InferTy::Option(x) => InferTy::Option(Box::new(clone_ity(x))),
        InferTy::Result(x, y) => InferTy::Result(Box::new(clone_ity(x)), Box::new(clone_ity(y))),
        InferTy::MapOf(k, x, y) => InferTy::MapOf(*k, Box::new(clone_ity(x)), Box::new(clone_ity(y))),
        InferTy::Fn(ps, r) => InferTy::Fn(clone_itys(ps), Box::new(clone_ity(r))),
    }
}

/// Copies of inference types.
pub fn clone_itys(ts: &Vec<InferTy>) -> (r: Vec<InferTy>)
    ensures
        r@.len() == ts@.len(),
        views_of(r@) == views_of(ts@),
    decreases ts,
{
    let mut out: Vec<InferTy> = Vec::new();
    let mut i: usize = 0;
    proof { assert(ts@.subrange(0, 0) =~= Seq::<InferTy>::empty()); }
    while i < ts.len()
        invariant
            i <= ts@.len(),
            out@.len() == i,
            views_of(out@) == views_of(ts@.subrange(0, i as int)),
        decreases ts@.len() - i,
    {
        let c = clone_ity(&ts[i]);
        let ghost o = out@;
        out.push(c);
        proof {
            assert(out@.drop_last() =~= o);
            assert(ts@.subrange(0, i as int + 1).drop_last() =~= ts@.subrange(0, i as int));
        }
        i = i + 1;
    }
    proof { assert(ts@.subrange(0, ts@.len() as int) =~= ts@); }
    out
}

impl Clone for InferTy {
    fn clone(&self) -> (r: InferTy) {
        clone_ity(self)
    }
}

/// The named inference type `n`.
pub fn named(n: &str) -> (t: InferTy)
    ensures
        t matches InferTy::Named(s) && s@ == n@,
{
    InferTy::Named(String::from_str(n))
}

/// Whether two inference types are structurally equal.
pub fn ity_eq(a: &InferTy, b: &InferTy) -> (r: bool)
    ensures
        r == (view_of(*a) == view_of(*b)),
    decreases a,
{
    match (a, b) {
        (InferTy::Var(x), InferTy::Var(y)) => *x == *y,
        (InferTy::Named(x), InferTy::Named(y)) => *x == *y,
        (InferTy::Vec(x), InferTy::Vec(y)) => ity_eq(x, y),
        (InferTy::SetOf(x), InferTy::SetOf(y)) => ity_eq(x, y),
        (InferTy::Option(x), InferTy::Option(y)) => ity_eq(x, y),
        (InferTy::Result(x1, x2), InferTy::Result(y1, y2)) => ity_eq(x1, y1) && ity_eq(x2, y2),
        (InferTy::MapOf(k1, x1, x2), InferTy::MapOf(k2, y1, y2)) => *k1 == *k2 && ity_eq(x1, y1) && ity_eq(x2, y2),
        (InferTy::Fn(xs, x), InferTy::Fn(ys, y)) => itys_eq(xs, ys) && ity_eq(x, y),
        _ => false,
    }
}

fn itys_eq(xs: &Vec<InferTy>, ys: &Vec<InferTy>) -> (r: bool)
    ensures
        r == (views_of(xs@) == views_of(ys@)),
    decreases xs,
{
    proof {
        lemma_views_of(xs@);
        lemma_views_of(ys@);
    }
    if xs.len() != ys.len() {
        return false;
    }
    let mut i: usize = 0;
    while i < xs.len()
        invariant
            xs@.len() == ys@.len(),
            i <= xs@.len(),
            views_of(xs@).len() == xs@.len(),
            views_of(ys@).len() == ys@.len(),
            forall|k: int| 0 <= k < xs@.len() ==> #[trigger] views_of(xs@)[k] == view_of(xs@[k]),
            forall|k: int| 0 <= k < ys@.len() ==> #[trigger] views_of(ys@)[k] == view_of(ys@[k]),
            forall|j: int| 0 <= j < i ==> view_of(#[trigger] xs@[j]) == view_of(ys@[j]),
        decreases xs@.len() - i,
    {
        if !ity_eq(&xs[i], &ys[i]) {
            proof {
                assert(views_of(xs@)[i as int] != views_of(ys@)[i as int]);
            }
            return false;
        }
        i = i + 1;
    }
    proof {
        assert(views_of(xs@) =~= views_of(ys@));
    }
    true
}

/// `t` with every occurrence of the variable `v` replaced by `by`.
fn replace_var(t: &InferTy, v: u32, by: &InferTy) -> (r: InferTy)
    ensures
        view_of(r) == subst(view_of(*t), v, view_of(*by)),
    decreases t,
{
    match t {
        InferTy::Var(id) => if *id == v { clone_ity(by) } else { InferTy::Var(*id) },
        InferTy::Named(n) => InferTy::Named(copy(n)),
        InferTy::Vec(x) => InferTy::Vec(Box::new(replace_var(x, v, by))),
        InferTy::SetOf(x) => InferTy::SetOf(Box::new(replace_var(x, v, by))),
        InferTy::Option(x) => InferTy::Option(Box::new(replace_var(x, v, by))),
        InferTy::Result(x, y) => InferTy::Result(Box::new(replace_var(x, v, by)), Box::new(replace_var(y, v, by))),
        InferTy::MapOf(k, x, y) => InferTy::MapOf(*k, Box::new(replace_var(x, v, by)), Box::new(replace_var(y, v, by))),
        InferTy::Fn(ps, r) => InferTy::Fn(replace_vars(ps, v, by), Box::new(replace_var(r, v, by))),
    }
}

fn replace_vars(ts: &Vec<InferTy>, v: u32, by: &InferTy) -> (r: Vec<InferTy>)
    ensures
        r@.len() == ts@.len(),
        views_of(r@) == subst_all(views_of(ts@), v, view_of(*by)),
    decreases ts,
{
    let mut out: Vec<InferTy> = Vec::new();
    let mut i: usize = 0;
    proof { assert(ts@.subrange(0, 0) =~= Seq::<InferTy>::empty()); }
    while i < ts.len()
        invariant
            i <= ts@.len(),
            out@.len() == i,
            views_of(out@) == subst_all(views_of(ts@.subrange(0, i as int)), v, view_of(*by)),
        decreases ts@.len() - i,
    {
        let c = replace_var(&ts[i], v, by);
        let ghost o = out@;
        out.push(c);
        proof {
            assert(out@.drop_last() =~= o);
            let sub = ts@.subrange(0, i as int + 1);
            assert(sub.drop_last() =~= ts@.subrange(0, i as int));
            assert(views_of(sub).drop_last() =~= views_of(ts@.subrange(0, i as int)));
        }
        i = i + 1;
    }
    proof { assert(ts@.subrange(0, ts@.len() as int) =~= ts@); }
    out
}

/// The state of inference: the next variable, the substitution (kept so
/// that bound types mention only unbound variables), and the variables
/// that must end up numeric or integer.
pub struct InferCtx {
    pub next_var: u32,
    pub subs: Vec<Option<InferTy>>,
    pub numeric_constraints: Vec<(InferTy, Span)>,
    pub int_constraints: Vec<(InferTy, Span)>,
}

/// The message for running out of type variables.
pub open spec fn too_many_vars_message() -> Seq<char> {
    "too many type variables"@
}

impl InferCtx {
    /// One substitution entry per variable handed out, and the
    /// substitution in solved form.
    pub open spec fn wf(&self) -> bool {
        &&& self.subs@.len() == self.next_var
        &&& subs_ok(self.subs@)
    }


    /// A context with no variables.
    pub fn new() -> (c: InferCtx)
        ensures
            c.wf(),
            c.next_var == 0,
    {
        InferCtx { next_var: 0, subs: Vec::new(), numeric_constraints: Vec::new(), int_constraints: Vec::new() }
    }

    /// A new, unbound variable.
    pub fn fresh_var(&mut self) -> (r: DslResult<InferTy>)
        requires
            old(self).wf(),
        ensures
            final(self).wf(),
            final(self).numeric_constraints@ == old(self).numeric_constraints@,
            final(self).int_constraints@ == old(self).int_constraints@,
            old(self).next_var < u32::MAX ==> (r matches Ok(InferTy::Var(id)) && id == old(self).next_var
                && final(self).next_var == old(self).next_var + 1
                && final(self).subs@ == old(self).subs@.push(None)),
            old(self).next_var == u32::MAX ==> r is Err && r->Err_0.message@ == too_many_vars_message(),
            subs_ranged(old(self).subs@) ==> subs_ranged(final(self).subs@),
            keeps_equal(old(self).subs@, final(self).subs@),
            r matches Ok(v) ==> vars_in_range(final(self).subs@, v) && unbound_vars(final(self).subs@, v),
    {
        if self.next_var == u32::MAX {
            return Err(Diag::new("too many type variables"));
        }
        let id = self.next_var;
        let ghost s0 = self.subs@;
        self.subs.push(None);
        self.next_var = id + 1;
        proof {
            assert forall|i: int| 0 <= i < self.subs@.len() && (#[trigger] self.subs@[i]) is Some
                implies unbound_vars(self.subs@, self.subs@[i].unwrap()) by {
                assert(s0[i] is Some);
                assert forall|w: u32| #[trigger] mentions(self.subs@[i].unwrap(), w) implies !bound_in(self.subs@, w) by {
                    assert(unbound_vars(s0, s0[i].unwrap()));
                    assert(!bound_in(s0, w));
                }
            }
            if subs_ranged(s0) {
                assert forall|i: int| 0 <= i < self.subs@.len() && (#[trigger] self.subs@[i]) is Some
                    implies vars_in_range(self.subs@, self.subs@[i].unwrap()) by {
                    assert(s0[i] is Some);
                    assert(vars_in_range(s0, s0[i].unwrap()));
                }
            }
            assert forall|x: InferTy| #[trigger] apply(self.subs@, x) == apply(s0, x) by {
                lemma_apply_push_none(s0, x);
            }
        }
        Ok(InferTy::Var(id))
    }

    /// `t` with its bound variables replaced by what they are bound to.
    pub fn resolve(&self, t: &InferTy) -> (r: InferTy)
        ensures
            view_of(r) == apply(self.subs@, *t),
        decreases t,
    {
        match t {
            InferTy::Var(id) => {
                let i = *id as usize;
                if i < self.subs.len() {
                    match &self.subs[i] {
                        Some(b) => clone_ity(b),
                        None => InferTy::Var(*id),
                    }
                } else {
                    InferTy::Var(*id)
                }
            },
            InferTy::Named(n) => InferTy::Named(copy(n)),
            InferTy::Vec(x) => InferTy::Vec(Box::new(self.resolve(x))),
            InferTy::SetOf(x) => InferTy::SetOf(Box::new(self.resolve(x))),
            InferTy::Option(x) => InferTy::Option(Box::new(self.resolve(x))),
            InferTy::Result(x, y) => InferTy::Result(Box::new(self.resolve(x)), Box::new(self.resolve(y))),
            InferTy::MapOf(k, x, y) => InferTy::MapOf(*k, Box::new(self.resolve(x)), Box::new(self.resolve(y))),
            InferTy::Fn(ps, r) => InferTy::Fn(self.resolve_all(ps), Box::new(self.resolve(r))),
        }
    }

    fn resolve_all(&self, ts: &Vec<InferTy>) -> (r: Vec<InferTy>)
        ensures
            r@.len() == ts@.len(),
            views_of(r@) == apply_all(self.subs@, ts@),
        decreases ts,
    {
        let mut out: Vec<InferTy> = Vec::new();
        let mut i: usize = 0;
        proof { assert(ts@.subrange(0, 0) =~= Seq::<InferTy>::empty()); }
        while i < ts.len()
            invariant
                i <= ts@.len(),
                out@.len() == i,
                views_of(out@) == apply_all(self.subs@, ts@.subrange(0, i as int)),
            decreases ts@.len() - i,
        {
            let c = self.resolve(&ts[i]);
            let ghost o = out@;
            out.push(c);
            proof {
                assert(out@.drop_last() =~= o);
                assert(ts@.subrange(0, i as int + 1).drop_last() =~= ts@.subrange(0, i as int));
            }
            i = i + 1;
        }
        proof { assert(ts@.subrange(0, ts@.len() as int) =~= ts@); }
        out
    }

    /// Whether the variable `id` occurs in `t` once resolved.
    pub fn occurs(&self, id: u32, t: &InferTy) -> (b: bool) {
        let r = self.resolve(t);
        mentions_var(&r, id)
    }

    /// Binds the unbound variable `id` to the resolved type `t`, and
    /// replaces `id` by `t` in every other binding.
    fn bind(&mut self, id: u32, t: InferTy)
        requires
            old(self).wf(),
            (id as int) < old(self).subs@.len(),
            old(self).subs@[id as int] is None,
            unbound_vars(old(self).subs@, t),
            !mentions(t, id),
        ensures
            final(self).wf(),
            final(self).next_var == old(self).next_var,
            final(self).numeric_constraints@ == old(self).numeric_constraints@,
            final(self).int_constraints@ == old(self).int_constraints@,
            bound_after(old(self).subs@, final(self).subs@, id, t),
            forall|x: InferTy| #[trigger] apply(final(self).subs@, x) == subst(apply(old(self).subs@, x), id, view_of(t)),
            subs_ranged(old(self).subs@) && vars_in_range(old(self).subs@, t) ==> subs_ranged(final(self).subs@),
    {
        let ghost s0 = self.subs@;
        let n = self.subs.len();
        let mut j: usize = 0;
        while j < n
            invariant
                n == self.subs@.len(),
                n == s0.len(),
                self.next_var == old(self).next_var,
                self.numeric_constraints@ == old(self).numeric_constraints@,
                self.int_constraints@ == old(self).int_constraints@,
                s0 == old(self).subs@,
                (id as int) < n,
                s0[id as int] is None,
                j <= n,
                forall|k: int| j <= k < n ==> #[trigger] self.subs@[k] == s0[k],
                forall|k: int| 0 <= k < j ==> ((#[trigger] self.subs@[k]) is Some <==> s0[k] is Some),
                forall|k: int| 0 <= k < j && (#[trigger] s0[k]) is Some ==>
                    view_of(self.subs@[k].unwrap()) == subst(view_of(s0[k].unwrap()), id, view_of(t)),
            decreases n - j,
        {
            let updated = match &self.subs[j] {
                Some(b) => Some(replace_var(b, id, &t)),
                None => None,
            };
            self.subs.set(j, updated);
            j = j + 1;
        }
        let ghost tv = t;
        self.subs.set(id as usize, Some(t));
        proof {
            let s1 = self.subs@;
            assert(bound_after(s0, s1, id, tv));
            assert forall|x: InferTy| #[trigger] apply(s1, x) == subst(apply(s0, x), id, view_of(tv)) by {
                lemma_apply_after_bind(s0, s1, id, tv, x);
            }
            assert forall|w: u32| #[trigger] bound_in(s1, w) implies bound_in(s0, w) || w == id by {
                if w != id {
                    assert(s1[w as int] is Some);
                }
            }
            assert forall|i: int| 0 <= i < s1.len() && (#[trigger] s1[i]) is Some implies unbound_vars(s1, s1[i].unwrap()) by {
                assert forall|w: u32| #[trigger] mentions(s1[i].unwrap(), w) implies !bound_in(s1, w) by {
                    if i == id as int {
                        assert(mentions(tv, w));
                        assert(!bound_in(s0, w));
                        assert(w != id);
                    } else {
                        let b = s0[i].unwrap();
                        lemma_mentions_view(s1[i].unwrap(), w);
                        lemma_subst_vars(view_of(b), id, view_of(tv), w);
                        lemma_mentions_view(b, w);
                        lemma_mentions_view(tv, w);
                        assert(unbound_vars(s0, b));
                        assert(!bound_in(s0, w));
                    }
                }
            }
            if subs_ranged(s0) && vars_in_range(s0, tv) {
                assert forall|i: int| 0 <= i < s1.len() && (#[trigger] s1[i]) is Some implies vars_in_range(s1, s1[i].unwrap()) by {
                    assert forall|w: u32| #[trigger] mentions(s1[i].unwrap(), w) implies (w as int) < s1.len() by {
                        if i == id as int {
                            assert(mentions(tv, w));
                        } else {
                            let b = s0[i].unwrap();
                            lemma_mentions_view(s1[i].unwrap(), w);
                            lemma_subst_vars(view_of(b), id, view_of(tv), w);
                            lemma_mentions_view(b, w);
                            lemma_mentions_view(tv, w);
                            assert(vars_in_range(s0, b));
                        }
                    }
                }
            }
        }
    }

    /// Makes `a` and `b` the same type, binding variables as needed. What
    /// was equal stays equal; and when every variable involved has been
    /// handed out by this context, success makes `a` and `b` equal.
    pub fn unify(&mut self, a: &InferTy, b: &InferTy, span: Span) -> (r: DslResult<()>)
        requires
            old(self).wf(),
        ensures
            final(self).wf(),
            final(self).next_var == old(self).next_var,
            final(self).numeric_constraints@ == old(self).numeric_constraints@,
            final(self).int_constraints@ == old(self).int_constraints@,
            keeps_equal(old(self).subs@, final(self).subs@),
            subs_ranged(old(self).subs@) && vars_in_range(old(self).subs@, *a) && vars_in_range(old(self).subs@, *b)
                ==> subs_ranged(final(self).subs@) && (r is Ok ==> apply(final(self).subs@, *a) == apply(final(self).subs@, *b)),
            named_pair_result(apply(old(self).subs@, *a), apply(old(self).subs@, *b), r),
            apply(old(self).subs@, *a) is Named && apply(old(self).subs@, *b) is Named ==> *final(self) == *old(self),
    {
        self.unify_fuel(a, b, span, u64::MAX)
    }

    #[verifier::spinoff_prover]
    fn unify_fuel(&mut self, a: &InferTy, b: &InferTy, span: Span, fuel: u64) -> (r: DslResult<()>)
        requires
            old(self).wf(),
        ensures
            final(self).wf(),
            final(self).next_var == old(self).next_var,
            final(self).numeric_constraints@ == old(self).numeric_constraints@,
            final(self).int_constraints@ == old(self).int_constraints@,
            keeps_equal(old(self).subs@, final(self).subs@),
            subs_ranged(old(self).subs@) && vars_in_range(old(self).subs@, *a) && vars_in_range(old(self).subs@, *b)
                ==> subs_ranged(final(self).subs@) && (r is Ok ==> apply(final(self).subs@, *a) == apply(final(self).subs@, *b)),
            fuel > 0 ==> named_pair_result(apply(old(self).subs@, *a), apply(old(self).subs@, *b), r),
            fuel > 0 && apply(old(self).subs@, *a) is Named && apply(old(self).subs@, *b) is Named ==> *final(self) == *old(self),
        decreases fuel,
    {
        if fuel == 0 {
            return Err(Diag::new("type inference produced a recursive type").with_span(span));
        }
        let ghost s0 = self.subs@;
        let ghost a0 = *a;
        let ghost b0 = *b;
        let ghost hyp = subs_ranged(s0) && vars_in_range(s0, a0) && vars_in_range(s0, b0);
        let ra = self.resolve(a);
        let rb = self.resolve(b);
        proof {
            lemma_resolved(s0, a0, ra);
            lemma_resolved(s0, b0, rb);
        }
        match (&ra, &rb) {
            (InferTy::Var(x), InferTy::Var(y)) => {
                if *x == *y {
                    return Ok(());
                }
                proof { lemma_var_unbound(s0, a0, *x); }
                let r = self.bind_var(*x, &rb, span);
                proof { self.lemma_after_bind_var(s0, a0, b0, *x, rb, hyp, r is Ok); }
                r
            },
            (InferTy::Var(x), _) => {
                proof { lemma_var_unbound(s0, a0, *x); }
                let r = self.bind_var(*x, &rb, span);
                proof { self.lemma_after_bind_var(s0, a0, b0, *x, rb, hyp, r is Ok); }
                r
            },
            (_, InferTy::Var(y)) => {
                proof { lemma_var_unbound(s0, b0, *y); }
                let r = self.bind_var(*y, &ra, span);
                proof { self.lemma_after_bind_var(s0, b0, a0, *y, ra, hyp, r is Ok); }
                r
            },
            (InferTy::Named(x), InferTy::Named(y)) => {
                if *x == *y {
                    Ok(())
                } else {
                    let msg = concat5("type mismatch: '", x.as_str(), "' vs '", y.as_str(), "'");
                    Err(Diag::from_message(msg).with_span(span))
                }
            },
            (InferTy::Vec(x), InferTy::Vec(y)) => {
                proof { lemma_parts_in_range(s0, ra, rb, hyp); }
                let r = self.unify_fuel(x, y, span, fuel - 1);
                proof { lemma_same_heads(s0, self.subs@, a0, b0, ra, rb, hyp, r is Ok); }
                r
            },
            (InferTy::SetOf(x), InferTy::SetOf(y)) => {
                proof { lemma_parts_in_range(s0, ra, rb, hyp); }
                let r = self.unify_fuel(x, y, span, fuel - 1);
                proof { lemma_same_heads(s0, self.subs@, a0, b0, ra, rb, hyp, r is Ok); }
                r
            },
            (InferTy::Option(x), InferTy::Option(y)) => {
                proof { lemma_parts_in_range(s0, ra, rb, hyp); }
                let r = self.unify_fuel(x, y, span, fuel - 1);
                proof { lemma_same_heads(s0, self.subs@, a0, b0, ra, rb, hyp, r is Ok); }
                r
            },
            (InferTy::Result(x1, x2), InferTy::Result(y1, y2)) => {
                proof { lemma_parts_in_range(s0, ra, rb, hyp); }
                match self.unify_fuel(x1, y1, span, fuel - 1) {
                    Ok(()) => {
                        let ghost s1 = self.subs@;
                        let r = self.unify_fuel(x2, y2, span, fuel - 1);
                        proof {
                            lemma_keeps_equal_trans(s0, s1, self.subs@);
                            if hyp && r is Ok {
                                assert(apply(s1, **x1) == apply(s1, **y1));
                                assert(apply(self.subs@, **x1) == apply(self.subs@, **y1));
                            }
                            lemma_same_heads(s0, self.subs@, a0, b0, ra, rb, hyp, r is Ok);
                        }
                        r
                    },
                    Err(e) => Err(e),
                }
            },
            (InferTy::MapOf(k1, x1, x2), InferTy::MapOf(k2, y1, y2)) => {
                if *k1 != *k2 {
                    return Err(Diag::new("type mismatch: map kind differs").with_span(span));
                }
                proof { lemma_parts_in_range(s0, ra, rb, hyp); }
                match self.unify_fuel(x1, y1, span, fuel - 1) {
                    Ok(()) => {
                        let ghost s1 = self.subs@;
                        let r = self.unify_fuel(x2, y2, span, fuel - 1);
                        proof {
                            lemma_keeps_equal_trans(s0, s1, self.subs@);
                            if hyp && r is Ok {
                                assert(apply(s1, **x1) == apply(s1, **y1));
                                assert(apply(self.subs@, **x1) == apply(self.subs@, **y1));
                            }
                            lemma_same_heads(s0, self.subs@, a0, b0, ra, rb, hyp, r is Ok);
                        }
                        r
                    },
                    Err(e) => Err(e),
                }
            },
            (InferTy::Fn(xs, x), InferTy::Fn(ys, y)) => {
                if xs.len() != ys.len() {
                    return Err(Diag::new("type mismatch: function arity differs").with_span(span));
                }
                proof { lemma_parts_in_range(s0, ra, rb, hyp); }
                let mut i: usize = 0;
                while i < xs.len()
                    invariant
                        self.wf(),
                        self.next_var == old(self).next_var,
                        self.numeric_constraints@ == old(self).numeric_constraints@,
                        self.int_constraints@ == old(self).int_constraints@,
                        xs@.len() == ys@.len(),
                        i <= xs@.len(),
                        fuel > 0,
                        s0 == old(self).subs@,
                        apply(old(self).subs@, *a) is Fn,
                        a0 == *a,
                        b0 == *b,
                        hyp == (subs_ranged(s0) && vars_in_range(s0, a0) && vars_in_range(s0, b0)),
                        self.subs@.len() == s0.len(),
                        keeps_equal(s0, self.subs@),
                        hyp ==> subs_ranged(self.subs@),
                        hyp ==> forall|j: int| 0 <= j < xs@.len() ==> vars_in_range(s0, #[trigger] xs@[j]) && vars_in_range(s0, ys@[j]),
                        hyp ==> forall|j: int| 0 <= j < i ==> apply(self.subs@, #[trigger] xs@[j]) == apply(self.subs@, ys@[j]),
                    decreases xs@.len() - i,
                {
                    let ghost s1 = self.subs@;
                    proof {
                        if hyp {
                            assert(vars_in_range(s1, xs@[i as int]) && vars_in_range(s1, ys@[i as int]));
                        }
                    }
                    match self.unify_fuel(&xs[i], &ys[i], span, fuel - 1) {
                        Ok(()) => {},
                        Err(e) => {
                            proof {
                                lemma_keeps_equal_trans(s0, s1, self.subs@);
                                if hyp {
                                    assert(subs_ranged(s1));
                                    assert(subs_ranged(self.subs@));
                                }
                            }
                            return Err(e);
                        },
                    }
                    proof {
                        lemma_keeps_equal_trans(s0, s1, self.subs@);
                        if hyp {
                            assert forall|j: int| 0 <= j < i + 1 implies apply(self.subs@, #[trigger] xs@[j]) == apply(self.subs@, ys@[j]) by {
                                if j < i {
                                    assert(apply(s1, xs@[j]) == apply(s1, ys@[j]));
                                }
                            }
                        }
                    }
                    i = i + 1;
                }
                let ghost s1 = self.subs@;
                let r = self.unify_fuel(x, y, span, fuel - 1);
                proof {
                    lemma_keeps_equal_trans(s0, s1, self.subs@);
                    if hyp && r is Ok {
                        let s2 = self.subs@;
                        assert forall|j: int| 0 <= j < xs@.len() implies apply(s2, #[trigger] xs@[j]) == apply(s2, ys@[j]) by {
                            assert(apply(s1, xs@[j]) == apply(s1, ys@[j]));
                        }
                        lemma_apply_all(s2, xs@);
                        lemma_apply_all(s2, ys@);
                        assert(apply_all(s2, xs@) =~= apply_all(s2, ys@));
                    }
                    lemma_same_heads(s0, self.subs@, a0, b0, ra, rb, hyp, r is Ok);
                }
                r
            },
            (InferTy::Vec(_), InferTy::Named(_)) | (InferTy::Named(_), InferTy::Vec(_)) => {
                Err(Diag::new("type mismatch: vector vs scalar").with_span(span))
            },
            (InferTy::Vec(_), InferTy::SetOf(_)) | (InferTy::SetOf(_), InferTy::Vec(_)) => {
                Err(Diag::new("type mismatch: vector vs set").with_span(span))
            },
            (InferTy::SetOf(_), InferTy::Named(_)) | (InferTy::Named(_), InferTy::SetOf(_)) => {
                Err(Diag::new("type mismatch: set vs scalar").with_span(span))
            },
            (InferTy::Option(_), _) | (_, InferTy::Option(_)) => {
                Err(Diag::new("type mismatch: option vs scalar").with_span(span))
            },
            (InferTy::Result(_, _), _) | (_, InferTy::Result(_, _)) => {
                Err(Diag::new("type mismatch: result vs scalar").with_span(span))
            },
            (InferTy::MapOf(_, _, _), _) | (_, InferTy::MapOf(_, _, _)) => {
                Err(Diag::new("type mismatch: map vs scalar").with_span(span))
            },
            (InferTy::Fn(_, _), _) | (_, InferTy::Fn(_, _)) => {
                Err(Diag::new("type mismatch: function vs scalar").with_span(span))
            },
        }
    }

    /// Binds the variable `id` to the resolved type `t`, refusing a
    /// binding that would make a type contain itself.
    fn bind_var(&mut self, id: u32, t: &InferTy, span: Span) -> (r: DslResult<()>)
        requires
            old(self).wf(),
            (id as int) < old(self).subs@.len() ==> !bound_in(old(self).subs@, id) && unbound_vars(old(self).subs@, *t),
        ensures
            final(self).wf(),
            final(self).next_var == old(self).next_var,
            final(self).numeric_constraints@ == old(self).numeric_constraints@,
            final(self).int_constraints@ == old(self).int_constraints@,
            r is Ok <==> !mentions(*t, id),
            r is Err ==> r->Err_0.message@ == "type inference produced a recursive type"@ && r->Err_0.span == Some(span),
            r is Ok && (id as int) < old(self).subs@.len() ==>
                forall|x: InferTy| #[trigger] apply(final(self).subs@, x) == subst(apply(old(self).subs@, x), id, view_of(*t)),
            !(r is Ok && (id as int) < old(self).subs@.len()) ==> final(self).subs@ == old(self).subs@,
            subs_ranged(old(self).subs@) && vars_in_range(old(self).subs@, *t) ==> subs_ranged(final(self).subs@),
    {
        if mentions_var(t, id) {
            return Err(Diag::new("type inference produced a recursive type").with_span(span));
        }
        if (id as usize) < self.subs.len() {
            let c = clone_ity(t);
            proof {
                assert forall|w: u32| #[trigger] mentions(c, w) implies !bound_in(old(self).subs@, w) by {
                    lemma_mentions_view(c, w);
                    lemma_mentions_view(*t, w);
                }
                lemma_mentions_view(c, id);
                lemma_mentions_view(*t, id);
                if subs_ranged(old(self).subs@) && vars_in_range(old(self).subs@, *t) {
                    assert forall|w: u32| #[trigger] mentions(c, w) implies (w as int) < old(self).subs@.len() by {
                        lemma_mentions_view(c, w);
                        lemma_mentions_view(*t, w);
                    }
                }
            }
            self.bind(id, c);
        }
        Ok(())
    }

    /// After `bind_var(x, rb)` where `a0` resolved to the variable `x` and
    /// `b0` to `rb`: the substitution keeps equalities, and under the
    /// range hypothesis success makes `a0` and `b0` equal.
    proof fn lemma_after_bind_var(&self, s0: Seq<Option<InferTy>>, a0: InferTy, b0: InferTy, x: u32, rb: InferTy, hyp: bool, ok: bool)
        requires
            subs_ok(s0),
            apply(s0, a0) == TyView::Var(x),
            apply(s0, b0) == view_of(rb),
            self.subs@.len() == s0.len(),
            ok ==> !mentions(rb, x),
            ok && (x as int) < s0.len() ==> forall|z: InferTy| #[trigger] apply(self.subs@, z) == subst(apply(s0, z), x, view_of(rb)),
            !(ok && (x as int) < s0.len()) ==> self.subs@ == s0,
            hyp ==> subs_ranged(s0) && vars_in_range(s0, a0),
        ensures
            keeps_equal(s0, self.subs@),
            hyp && ok ==> apply(self.subs@, a0) == apply(self.subs@, b0),
    {
        let s1 = self.subs@;
        if ok && (x as int) < s0.len() {
            assert forall|p: InferTy, q: InferTy| #![trigger apply(s1, p), apply(s1, q)]
                apply(s0, p) == apply(s0, q) implies apply(s1, p) == apply(s1, q) by {
                assert(apply(s1, p) == subst(apply(s0, p), x, view_of(rb)));
                assert(apply(s1, q) == subst(apply(s0, q), x, view_of(rb)));
            }
        }
        if hyp && ok {
            lemma_apply_vars(s0, a0, x);
            assert((x as int) < s0.len());
            assert(apply(s1, a0) == subst(apply(s0, a0), x, view_of(rb)));
            assert(apply(s1, b0) == subst(apply(s0, b0), x, view_of(rb)));
            lemma_mentions_view(rb, x);
            lemma_subst_fixed(view_of(rb), x, view_of(rb));
        }
    }
}

/// What resolving `t0` under `s` gives: a type free of bound variables
/// whose value is that of `t0`, and whose variables are in range when those
/// of `t0` and of the bindings are.
proof fn lemma_resolved(s: Seq<Option<InferTy>>, t0: InferTy, r: InferTy)
    requires
        subs_ok(s),
        view_of(r) == apply(s, t0),
    ensures
        unbound_vars(s, r),
        apply(s, r) == apply(s, t0),
        subs_ranged(s) && vars_in_range(s, t0) ==> vars_in_range(s, r),
{
    assert forall|w: u32| #[trigger] mentions(r, w) implies !bound_in(s, w) by {
        lemma_mentions_view(r, w);
        lemma_apply_vars(s, t0, w);
    }
    lemma_apply_fixed(s, r);
    if subs_ranged(s) && vars_in_range(s, t0) {
        assert forall|w: u32| #[trigger] mentions(r, w) implies (w as int) < s.len() by {
            lemma_mentions_view(r, w);
            lemma_apply_vars(s, t0, w);
        }
    }
}

/// A type whose value is a variable resolves to an unbound variable.
proof fn lemma_var_unbound(s: Seq<Option<InferTy>>, t0: InferTy, x: u32)
    requires
        subs_ok(s),
        apply(s, t0) == TyView::Var(x),
    ensures
        !bound_in(s, x),
{
    lemma_apply_vars(s, t0, x);
}

/// `keeps_equal` composes.
proof fn lemma_keeps_equal_trans(s0: Seq<Option<InferTy>>, s1: Seq<Option<InferTy>>, s2: Seq<Option<InferTy>>)
    requires
        keeps_equal(s0, s1),
        keeps_equal(s1, s2),
    ensures
        keeps_equal(s0, s2),
{
    assert forall|x: InferTy, y: InferTy| #![trigger apply(s2, x), apply(s2, y)]
        apply(s0, x) == apply(s0, y) implies apply(s2, x) == apply(s2, y) by {
        assert(apply(s1, x) == apply(s1, y));
    }
}

/// The parts of two resolved types in range are in range.
proof fn lemma_parts_in_range(s: Seq<Option<InferTy>>, a: InferTy, b: InferTy, hyp: bool)
    requires
        hyp ==> vars_in_range(s, a) && vars_in_range(s, b),
    ensures
        hyp ==> match a {
            InferTy::Vec(x) => vars_in_range(s, *x),
            InferTy::SetOf(x) => vars_in_range(s, *x),
            InferTy::Option(x) => vars_in_range(s, *x),
            InferTy::Result(x, y) => vars_in_range(s, *x) && vars_in_range(s, *y),
            InferTy::MapOf(_, x, y) => vars_in_range(s, *x) && vars_in_range(s, *y),
            InferTy::Fn(xs, x) => vars_in_range(s, *x) && forall|j: int| 0 <= j < xs@.len() ==> vars_in_range(s, #[trigger] xs@[j]),
            _ => true,
        },
        hyp ==> match b {
            InferTy::Vec(x) => vars_in_range(s, *x),
            InferTy::SetOf(x) => vars_in_range(s, *x),
            InferTy::Option(x) => vars_in_range(s, *x),
            InferTy::Result(x, y) => vars_in_range(s, *x) && vars_in_range(s, *y),
            InferTy::MapOf(_, x, y) => vars_in_range(s, *x) && vars_in_range(s, *y),
            InferTy::Fn(xs, x) => vars_in_range(s, *x) && forall|j: int| 0 <= j < xs@.len() ==> vars_in_range(s, #[trigger] xs@[j]),
            _ => true,
        },
{
    if hyp {
        lemma_parts_in_range_one(s, a);
        lemma_parts_in_range_one(s, b);
    }
}

proof fn lemma_parts_in_range_one(s: Seq<Option<InferTy>>, a: InferTy)
    requires
        vars_in_range(s, a),
    ensures
        match a {
            InferTy::Vec(x) => vars_in_range(s, *x),
            InferTy::SetOf(x) => vars_in_range(s, *x),
            InferTy::Option(x) => vars_in_range(s, *x),
            InferTy::Result(x, y) => vars_in_range(s, *x) && vars_in_range(s, *y),
            InferTy::MapOf(_, x, y) => vars_in_range(s, *x) && vars_in_range(s, *y),
            InferTy::Fn(xs, x) => vars_in_range(s, *x) && forall|j: int| 0 <= j < xs@.len() ==> vars_in_range(s, #[trigger] xs@[j]),
            _ => true,
        },
{
    match a {
        InferTy::Vec(x) => {
            assert forall|w: u32| #[trigger] mentions(*x, w) implies (w as int) < s.len() by { assert(mentions(a, w)); }
        },
        InferTy::SetOf(x) => {
            assert forall|w: u32| #[trigger] mentions(*x, w) implies (w as int) < s.len() by { assert(mentions(a, w)); }
        },
        InferTy::Option(x) => {
            assert forall|w: u32| #[trigger] mentions(*x, w) implies (w as int) < s.len() by { assert(mentions(a, w)); }
        },
        InferTy::Result(x, y) => {
            assert forall|w: u32| #[trigger] mentions(*x, w) implies (w as int) < s.len() by { assert(mentions(a, w)); }
            assert forall|w: u32| #[trigger] mentions(*y, w) implies (w as int) < s.len() by { assert(mentions(a, w)); }
        },
        InferTy::MapOf(_, x, y) => {
            assert forall|w: u32| #[trigger] mentions(*x, w) implies (w as int) < s.len() by { assert(mentions(a, w)); }
            assert forall|w: u32| #[trigger] mentions(*y, w) implies (w as int) < s.len() by { assert(mentions(a, w)); }
        },
        InferTy::Fn(xs, x) => {
            assert forall|w: u32| #[trigger] mentions(*x, w) implies (w as int) < s.len() by { assert(mentions(a, w)); }
            assert forall|j: int| 0 <= j < xs@.len() implies vars_in_range(s, #[trigger] xs@[j]) by {
                assert forall|w: u32| #[trigger] mentions(xs@[j], w) implies (w as int) < s.len() by { assert(mentions(a, w)); }
            }
        },
        _ => {},
    }
}

/// After unifying the parts of two resolved types `a` and `b` (the values
/// of `a0` and `b0`), what holds of the whole.
proof fn lemma_same_heads(s0: Seq<Option<InferTy>>, s1: Seq<Option<InferTy>>, a0: InferTy, b0: InferTy, a: InferTy, b: InferTy, hyp: bool, ok: bool)
    requires
        keeps_equal(s0, s1),
        apply(s0, a) == apply(s0, a0),
        apply(s0, b) == apply(s0, b0),
        hyp && ok ==> apply(s1, a) == apply(s1, b),
    ensures
        hyp && ok ==> apply(s1, a0) == apply(s1, b0),
{
    if hyp && ok {
        assert(apply(s1, a0) == apply(s1, a));
        assert(apply(s1, b0) == apply(s1, b));
    }
}

/// Decides `mentions`.
pub fn mentions_var(t: &InferTy, v: u32) -> (b: bool)
    ensures
        b == mentions(*t, v),
    decreases t,
{
    match t {
        InferTy::Var(id) => *id == v,
        InferTy::Named(_) => false,
        InferTy::Vec(x) => mentions_var(x, v),
        InferTy::SetOf(x) => mentions_var(x, v),
        InferTy::Option(x) => mentions_var(x, v),
        InferTy::Result(x, y) => mentions_var(x, v) || mentions_var(y, v),
        InferTy::MapOf(_, x, y) => mentions_var(x, v) || mentions_var(y, v),
        InferTy::Fn(ps, r) => mentions_var(r, v) || mentions_any(ps, v),
    }
}

fn mentions_any(ts: &Vec<InferTy>, v: u32) -> (b: bool)
    ensures
        b == exists|i: int| 0 <= i < ts@.len() && mentions(#[trigger] ts@[i], v),
    decreases ts,
{
    let mut i: usize = 0;
    while i < ts.len()
        invariant
            i <= ts@.len(),
            forall|j: int| 0 <= j < i ==> !mentions(#[trigger] ts@[j], v),
        decreases ts@.len() - i,
    {
        if mentions_var(&ts[i], v) {
            return true;
        }
        i = i + 1;
    }
    false
}

// ---------------------------------------------------------------------------
// Between declared types and inference types

/// The inference type of a declared type: generic parameters share one
/// variable each (recorded in `generics`), unknown types get fresh ones.
pub fn infer_from_ty_with_generics(ctx: &mut InferCtx, ty: &Ty, generics: &mut Vec<(u32, InferTy)>) -> (r: DslResult<InferTy>)
    requires
        old(ctx).wf(),
    ensures
        final(ctx).wf(),
        final(ctx).numeric_constraints@ == old(ctx).numeric_constraints@,
        final(ctx).int_constraints@ == old(ctx).int_constraints@,
        *ty matches Ty::Named(n) ==> (r matches Ok(InferTy::Named(m)) && m@ == n@),
    decreases ty,
{
    match ty {
        Ty::Named(n) => Ok(InferTy::Named(copy(n))),
        Ty::Vec(inner) => match infer_from_ty_with_generics(ctx, inner, generics) {
            Ok(t) => Ok(InferTy::Vec(Box::new(t))),
            Err(e) => Err(e),
        },
        Ty::SetOf(inner) => match infer_from_ty_with_generics(ctx, inner, generics) {
            Ok(t) => Ok(InferTy::SetOf(Box::new(t))),
            Err(e) => Err(e),
        },
        Ty::Option(inner) => match infer_from_ty_with_generics(ctx, inner, generics) {
            Ok(t) => Ok(InferTy::Option(Box::new(t))),
            Err(e) => Err(e),
        },
        Ty::Result(ok, err) => {
            let a = match infer_from_ty_with_generics(ctx, ok, generics) {
                Ok(t) => t,
                Err(e) => return Err(e),
            };
            match infer_from_ty_with_generics(ctx, err, generics) {
                Ok(b) => Ok(InferTy::Result(Box::new(a), Box::new(b))),
                Err(e) => Err(e),
            }
        },
        Ty::MapOf(kind, k, v) => {
            let a = match infer_from_ty_with_generics(ctx, k, generics) {
                Ok(t) => t,
                Err(e) => return Err(e),
            };
            match infer_from_ty_with_generics(ctx, v, generics) {
                Ok(b) => Ok(InferTy::MapOf(*kind, Box::new(a), Box::new(b))),
                Err(e) => Err(e),
            }
        },
        Ty::Union(_) => Ok(named("__DarcyUnion")),
        Ty::Generic(id) => {
            let mut i: usize = 0;
            while i < generics.len()
                invariant
                    i <= generics@.len(),
                    ctx.wf(),
                    ctx.numeric_constraints@ == old(ctx).numeric_constraints@,
                    ctx.int_constraints@ == old(ctx).int_constraints@,
                    ty is Generic,
                decreases generics@.len() - i,
            {
                if generics[i].0 == *id {
                    return Ok(clone_ity(&generics[i].1));
                }
                i = i + 1;
            }
            match ctx.fresh_var() {
                Ok(t) => {
                    generics.push((*id, clone_ity(&t)));
                    Ok(t)
                },
                Err(e) => Err(e),
            }
        },
        Ty::Unknown => ctx.fresh_var(),
    }
}

/// The inference type of a declared type, generic parameters fresh.
pub fn infer_from_ty(ctx: &mut InferCtx, ty: &Ty) -> (r: DslResult<InferTy>)
    requires
        old(ctx).wf(),
    ensures
        final(ctx).wf(),
        final(ctx).numeric_constraints@ == old(ctx).numeric_constraints@,
        final(ctx).int_constraints@ == old(ctx).int_constraints@,
        *ty matches Ty::Named(n) ==> (r matches Ok(InferTy::Named(m)) && m@ == n@),
{
    let mut generics: Vec<(u32, InferTy)> = Vec::new();
    infer_from_ty_with_generics(ctx, ty, &mut generics)
}

/// The declared type an inference type resolves to; `None` where a
/// variable is left (an option, result or map gets `_` inside instead).
pub fn infer_to_ty(ctx: &InferCtx, ty: &InferTy) -> (r: Option<Ty>)
    ensures
        apply(ctx.subs@, *ty) matches TyView::Named(n) ==> (r matches Some(Ty::Named(m)) && m@ == n),
{
    let r = ctx.resolve(ty);
    resolved_to_ty(&r)
}

/// Whether a resolved inference type becomes a declared type: a variable
/// or function type does not, nor a vector or set of one.
pub open spec fn converts(t: InferTy) -> bool
    decreases t,
{
    match t {
        InferTy::Var(_) => false,
        InferTy::Named(_) => true,
        InferTy::Vec(x) => converts(*x),
        InferTy::SetOf(x) => converts(*x),
        InferTy::Option(_) => true,
        InferTy::Result(_, _) => true,
        InferTy::MapOf(_, _, _) => true,
        InferTy::Fn(_, _) => false,
    }
}

/// `y` is the declared type of `t`, with `_` inside an option, result or
/// map where the part does not convert.
pub open spec fn converted(y: Ty, t: InferTy) -> bool
    decreases t,
{
    match (t, y) {
        (InferTy::Named(n), Ty::Named(m)) => m@ == n@,
        (InferTy::Vec(i), Ty::Vec(x)) => converted(*x, *i),
        (InferTy::SetOf(i), Ty::SetOf(x)) => converted(*x, *i),
        (InferTy::Option(i), Ty::Option(x)) => if converts(*i) { converted(*x, *i) } else { *x is Unknown },
        (InferTy::Result(a, b), Ty::Result(x, z)) => (if converts(*a) { converted(*x, *a) } else { *x is Unknown })
            && (if converts(*b) { converted(*z, *b) } else { *z is Unknown }),
        (InferTy::MapOf(k, a, b), Ty::MapOf(k2, x, z)) => k == k2
            && (if converts(*a) { converted(*x, *a) } else { *x is Unknown })
            && (if converts(*b) { converted(*z, *b) } else { *z is Unknown }),
        _ => false,
    }
}

/// `y` is the declared type of `t` with its variables as generic
/// parameters (a function type becomes `_`).
pub open spec fn converted_generic(y: Ty, t: InferTy) -> bool
    decreases t,
{
    match (t, y) {
        (InferTy::Var(id), Ty::Generic(g)) => g == id,
        (InferTy::Named(n), Ty::Named(m)) => m@ == n@,
        (InferTy::Vec(i), Ty::Vec(x)) => converted_generic(*x, *i),
        (InferTy::SetOf(i), Ty::SetOf(x)) => converted_generic(*x, *i),
        (InferTy::Option(i), Ty::Option(x)) => converted_generic(*x, *i),
        (InferTy::Result(a, b), Ty::Result(x, z)) => converted_generic(*x, *a) && converted_generic(*z, *b),
        (InferTy::MapOf(k, a, b), Ty::MapOf(k2, x, z)) => k == k2 && converted_generic(*x, *a) && converted_generic(*z, *b),
        (InferTy::Fn(_, _), Ty::Unknown) => true,
        _ => false,
    }
}

fn resolved_to_ty(t: &InferTy) -> (r: Option<Ty>)
    ensures
        r is Some <==> converts(*t),
        r matches Some(y) ==> converted(y, *t),
    decreases t,
{
    match t {
        InferTy::Var(_) => None,
        InferTy::Named(n) => Some(Ty::Named(copy(n))),
        InferTy::Vec(inner) => match resolved_to_ty(inner) {
            Some(x) => Some(Ty::Vec(Box::new(x))),
            None => None,
        },
        InferTy::SetOf(inner) => match resolved_to_ty(inner) {
            Some(x) => Some(Ty::SetOf(Box::new(x))),
            None => None,
        },
        InferTy::Option(inner) => {
            let x = match resolved_to_ty(inner) {
                Some(x) => x,
                None => Ty::Unknown,
            };
            Some(Ty::Option(Box::new(x)))
        },
        InferTy::Result(ok, err) => {
            let a = match resolved_to_ty(ok) {
                Some(x) => x,
                None => Ty::Unknown,
            };
            let b = match resolved_to_ty(err) {
                Some(x) => x,
                None => Ty::Unknown,
            };
            Some(Ty::Result(Box::new(a), Box::new(b)))
        },
        InferTy::MapOf(kind, k, v) => {
            let a = match resolved_to_ty(k) {
                Some(x) => x,
                None => Ty::Unknown,
            };
            let b = match resolved_to_ty(v) {
                Some(x) => x,
                None => Ty::Unknown,
            };
            Some(Ty::MapOf(*kind, Box::new(a), Box::new(b)))
        },
        InferTy::Fn(_, _) => None,
    }
}

/// The declared type an inference type resolves to, with variables left as
/// generic parameters.
pub fn infer_to_ty_allow_generic(ctx: &InferCtx, ty: &InferTy) -> (r: Ty) {
    let r = ctx.resolve(ty);
    resolved_to_ty_generic(&r)
}

fn resolved_to_ty_generic(t: &InferTy) -> (r: Ty)
    ensures
        converted_generic(r, *t),
    decreases t,
{
    match t {
        InferTy::Var(id) => Ty::Generic(*id),
        InferTy::Named(n) => Ty::Named(copy(n)),
        InferTy::Vec(inner) => Ty::Vec(Box::new(resolved_to_ty_generic(inner))),
        InferTy::SetOf(inner) => Ty::SetOf(Box::new(resolved_to_ty_generic(inner))),
        InferTy::Option(inner) => Ty::Option(Box::new(resolved_to_ty_generic(inner))),
        InferTy::Result(ok, err) => Ty::Result(Box::new(resolved_to_ty_generic(ok)), Box::new(resolved_to_ty_generic(err))),
        InferTy::MapOf(kind, k, v) => Ty::MapOf(*kind, Box::new(resolved_to_ty_generic(k)), Box::new(resolved_to_ty_generic(v))),
        InferTy::Fn(_, _) => Ty::Unknown,
    }
}

/// A type with no unknowns and no generic parameters.
pub open spec fn concrete(t: Ty) -> bool
    decreases t,
{
    match t {
        Ty::Unknown => false,
        Ty::Generic(_) => false,
        Ty::Named(_) => true,
        Ty::Vec(x) => concrete(*x),
        Ty::SetOf(x) => concrete(*x),
        Ty::Option(x) => concrete(*x),
        Ty::Result(x, y) => concrete(*x) && concrete(*y),
        Ty::MapOf(_, x, y) => concrete(*x) && concrete(*y),
        Ty::Union(xs) => forall|i: int| 0 <= i < xs@.len() ==> concrete(#[trigger] xs@[i]),
    }
}

/// Decides `concrete`.
pub fn is_concrete_ty(t: &Ty) -> (b: bool)
    ensures
        b == concrete(*t),
    decreases t,
{
    match t {
        Ty::Unknown => false,
        Ty::Generic(_) => false,
        Ty::Named(_) => true,
        Ty::Vec(x) => is_concrete_ty(x),
        Ty::SetOf(x) => is_concrete_ty(x),
        Ty::Option(x) => is_concrete_ty(x),
        Ty::Result(x, y) => is_concrete_ty(x) && is_concrete_ty(y),
        Ty::MapOf(_, x, y) => is_concrete_ty(x) && is_concrete_ty(y),
        Ty::Union(xs) => all_concrete(xs),
    }
}

fn all_concrete(xs: &Vec<Ty>) -> (b: bool)
    ensures
        b == forall|i: int| 0 <= i < xs@.len() ==> concrete(#[trigger] xs@[i]),
    decreases xs,
{
    let mut i: usize = 0;
    while i < xs.len()
        invariant
            i <= xs@.len(),
            forall|j: int| 0 <= j < i ==> concrete(#[trigger] xs@[j]),
        decreases xs@.len() - i,
    {
        if !is_concrete_ty(&xs[i]) {
            return false;
        }
        i = i + 1;
    }
    true
}

/// How an inference type is shown in messages.
pub fn infer_ty_rust(ctx: &InferCtx, ty: &InferTy) -> (s: String) {
    let r = ctx.resolve(ty);
    show_ity(&r)
}

/// How an inference type is written in messages.
pub open spec fn ity_text(t: InferTy) -> Seq<char>
    decreases t,
{
    match t {
        InferTy::Var(id) => "'t"@ + crate::text::decimal(id as nat),
        InferTy::Named(n) => n@,
        InferTy::Vec(x) => "Arc<Vec<"@ + ity_text(*x) + ">>"@,
        InferTy::SetOf(x) => "HashSet<"@ + ity_text(*x) + ">"@,
        InferTy::Option(x) => "Option<"@ + ity_text(*x) + ">"@,
        InferTy::Result(x, y) => "Result<"@ + ity_text(*x) + ", "@ + ity_text(*y) + ">"@,
        InferTy::MapOf(kind, x, y) => (if kind == MapKind::Hash { "HashMap<"@ } else { "BTreeMap<"@ })
            + ity_text(*x) + ", "@ + ity_text(*y) + ">"@,
        InferTy::Fn(ps, r) => "fn("@ + itys_text(ps@) + ") -> "@ + ity_text(*r),
    }
}

/// How a list of inference types is written: each, separated by ", ".
pub open spec fn itys_text(ps: Seq<InferTy>) -> Seq<char>
    decreases ps,
{
    if ps.len() == 0 {
        seq![]
    } else if ps.len() == 1 {
        ity_text(ps[0])
    } else {
        itys_text(ps.drop_last()) + ", "@ + ity_text(ps.last())
    }
}

fn show_ity(t: &InferTy) -> (s: String)
    ensures
        s@ == ity_text(*t),
    decreases t,
{
    match t {
        InferTy::Var(id) => {
            let d = u64_decimal_chars(*id as u64);
            let d = string_from_chars(d.as_slice());
            concat2("'t", d.as_str())
        },
        InferTy::Named(n) => copy(n),
        InferTy::Vec(x) => {
            let i = show_ity(x);
            concat3("Arc<Vec<", i.as_str(), ">>")
        },
        InferTy::SetOf(x) => {
            let i = show_ity(x);
            concat3("HashSet<", i.as_str(), ">")
        },
        InferTy::Option(x) => {
            let i = show_ity(x);
            concat3("Option<", i.as_str(), ">")
        },
        InferTy::Result(x, y) => {
            let a = show_ity(x);
            let b = show_ity(y);
            let mut s = concat3("Result<", a.as_str(), ", ");
            s.append(b.as_str());
            s.append(">");
            s
        },
        InferTy::MapOf(kind, x, y) => {
            let a = show_ity(x);
            let b = show_ity(y);
            let mut s = match kind {
                MapKind::Hash => String::from_str("HashMap<"),
                MapKind::BTree => String::from_str("BTreeMap<"),
            };
            s.append(a.as_str());
            s.append(", ");
            s.append(b.as_str());
            s.append(">");
            s
        },
        InferTy::Fn(ps, r) => {
            let mut s = String::from_str("fn(");
            let args = show_params(ps);
            s.append(args.as_str());
            s.append(") -> ");
            let rr = show_ity(r);
            s.append(rr.as_str());
            s
        },
    }
}

fn show_params(ps: &Vec<InferTy>) -> (s: String)
    ensures
        s@ == itys_text(ps@),
    decreases ps,
{
    let mut s = String::new();
    let mut i: usize = 0;
    while i < ps.len()
        invariant
            i <= ps@.len(),
            s@ == itys_text(ps@.take(i as int)),
        decreases ps@.len() - i,
    {
        proof {
            assert(ps@.take(i + 1).drop_last() =~= ps@.take(i as int));
        }
        if i > 0 {
            s.append(", ");
        }
        let p = show_ity(&ps[i]);
        s.append(p.as_str());
        proof {
            if i == 0 {
                assert(s@ =~= ity_text(ps@[0]));
            }
        }
        i = i + 1;
    }
    proof {
        assert(ps@.take(ps@.len() as int) =~= ps@);
    }
    s
}

// ---------------------------------------------------------------------------
// Numeric types

/// The integer type names.
pub open spec fn integer_name(s: Seq<char>) -> bool {
    s == "i8"@ || s == "i16"@ || s == "i32"@ || s == "i64"@ || s == "i128"@ || s == "u8"@
        || s == "u16"@ || s == "u32"@ || s == "u64"@ || s == "u128"@ || s == "usize"@ || s == "isize"@
}

/// The numeric type names: the integers, `f32` and `f64`.
pub open spec fn numeric_name(s: Seq<char>) -> bool {
    integer_name(s) || s == "f32"@ || s == "f64"@
}

/// Decides `integer_name`.
pub fn is_integer_name(s: &String) -> (b: bool)
    ensures
        b == integer_name(s@),
{
    is_lit(s, "i8") || is_lit(s, "i16") || is_lit(s, "i32") || is_lit(s, "i64") || is_lit(s, "i128")
        || is_lit(s, "u8") || is_lit(s, "u16") || is_lit(s, "u32") || is_lit(s, "u64")
        || is_lit(s, "u128") || is_lit(s, "usize") || is_lit(s, "isize")
}

/// Decides `numeric_name`.
pub fn is_numeric_name(s: &String) -> (b: bool)
    ensures
        b == numeric_name(s@),
{
    is_integer_name(s) || is_lit(s, "f32") || is_lit(s, "f64")
}

/// A named numeric type.
pub fn is_numeric(t: &Ty) -> (b: bool)
    ensures
        b == (t is Named && numeric_name(t->Named_0@)),
{
    match t {
        Ty::Named(n) => is_numeric_name(n),
        _ => false,
    }
}

/// A named integer type.
pub fn is_integer(t: &Ty) -> (b: bool)
    ensures
        b == (t is Named && integer_name(t->Named_0@)),
{
    match t {
        Ty::Named(n) => is_integer_name(n),
        _ => false,
    }
}

/// What an arithmetic operator on two scalar types gives: `f64` if either
/// is `f64`, else `f32` if either is a float, else the type itself when
/// both are the same integer type, else `i64`. Both must be numeric.
pub open spec fn scalar_binop_result(a: Ty, b: Ty) -> Option<Seq<char>> {
    let ai = a is Named && integer_name(a->Named_0@);
    let af = a is Named && (a->Named_0@ == "f32"@ || a->Named_0@ == "f64"@);
    let bi = b is Named && integer_name(b->Named_0@);
    let bf = b is Named && (b->Named_0@ == "f32"@ || b->Named_0@ == "f64"@);
    if !(ai || af) || !(bi || bf) {
        None
    } else if a->Named_0@ == "f64"@ || b->Named_0@ == "f64"@ {
        Some("f64"@)
    } else if af || bf {
        Some("f32"@)
    } else if a->Named_0@ == b->Named_0@ {
        Some(a->Named_0@)
    } else {
        Some("i64"@)
    }
}

/// The result type of an arithmetic operator on two scalar types, or the
/// message that refuses them.
pub fn numeric_scalar_binop(a: &Ty, b: &Ty) -> (r: Result<Ty, String>)
    ensures
        match scalar_binop_result(*a, *b) {
            Some(n) => r matches Ok(Ty::Named(s)) && s@ == n,
            None => r is Err && r->Err_0@ == "operator expects numeric types, got '"@
                + crate::ast::ty_rust_spec(*a) + "' and '"@ + crate::ast::ty_rust_spec(*b) + "'"@,
        },
{
    let (ai, af) = match a {
        Ty::Named(n) => (is_integer_name(n), is_lit(n, "f32") || is_lit(n, "f64")),
        _ => (false, false),
    };
    let (bi, bf) = match b {
        Ty::Named(n) => (is_integer_name(n), is_lit(n, "f32") || is_lit(n, "f64")),
        _ => (false, false),
    };
    if !(ai || af) || !(bi || bf) {
        let ar = a.rust();
        let br = b.rust();
        let msg = concat5("operator expects numeric types, got '", ar.as_str(), "' and '", br.as_str(), "'");
        return Err(msg);
    }
    let (an, bn) = match (a, b) {
        (Ty::Named(x), Ty::Named(y)) => (x, y),
        _ => {
            return Err(String::new());
        },
    };
    if is_lit(an, "f64") || is_lit(bn, "f64") {
        return Ok(Ty::Named(String::from_str("f64")));
    }
    if af || bf {
        return Ok(Ty::Named(String::from_str("f32")));
    }
    if *an == *bn {
        return Ok(Ty::Named(copy(an)));
    }
    Ok(Ty::Named(String::from_str("i64")))
}

/// `t` is the named type `n`.
pub open spec fn names_ty(t: Ty, n: Seq<char>) -> bool {
    t matches Ty::Named(m) && m@ == n
}

/// A numeric operand whose type is not `n` must be cast to `n`.
pub open spec fn needs_cast(t: Ty, n: Seq<char>) -> bool {
    t is Named && numeric_name(t->Named_0@) && t->Named_0@ != n
}

/// The casts of an operator whose result is the named type `n`: one for
/// each numeric operand of another type, at that operand's span, to `n`,
/// the left operand's first; none for an operand already of type `n`.
pub open spec fn operand_casts(a: Ty, b: Ty, a_sp: Span, b_sp: Span, n: Seq<char>, casts: Seq<CastHint>) -> bool {
    &&& casts.len() == (if needs_cast(a, n) { 1int } else { 0int }) + (if needs_cast(b, n) { 1int } else { 0int })
    &&& needs_cast(a, n) ==> casts[0].span == a_sp && names_ty(casts[0].target, n)
    &&& needs_cast(b, n) ==> casts.last().span == b_sp && names_ty(casts.last().target, n)
}

/// The type of `mod` or a bitwise operator on two integer types: their
/// common type, or `i64` when they differ.
pub open spec fn integer_binop_result(a: Ty, b: Ty) -> Seq<char> {
    if a->Named_0@ == b->Named_0@ { a->Named_0@ } else { "i64"@ }
}

/// An arithmetic operator on operands of the named types `x` and `y` has
/// the type `scalar_binop_result` gives, with the casts `operand_casts`
/// says.
pub open spec fn scalar_binop_typed(x: Seq<char>, y: Seq<char>, a_sp: Span, b_sp: Span, t: InferTy, casts: Seq<CastHint>) -> bool {
    exists|ta: Ty, tb: Ty| {
        &&& #[trigger] names_ty(ta, x)
        &&& #[trigger] names_ty(tb, y)
        &&& scalar_binop_result(ta, tb) matches Some(n)
        &&& t matches InferTy::Named(m) && m@ == n
        &&& operand_casts(ta, tb, a_sp, b_sp, n, casts)
    }
}

/// `mod` or a bitwise operator on operands of the named types `x` and `y`
/// has the type `integer_binop_result` gives, with the casts
/// `operand_casts` says.
pub open spec fn integer_binop_typed(x: Seq<char>, y: Seq<char>, a_sp: Span, b_sp: Span, t: InferTy, casts: Seq<CastHint>) -> bool {
    exists|ta: Ty, tb: Ty| {
        &&& #[trigger] names_ty(ta, x)
        &&& #[trigger] names_ty(tb, y)
        &&& t matches InferTy::Named(m) && m@ == integer_binop_result(ta, tb)
        &&& operand_casts(ta, tb, a_sp, b_sp, integer_binop_result(ta, tb), casts)
    }
}

/// The result type and casts of an arithmetic operator on two declared
/// types: a vector with a scalar of its element type keeps the vector
/// type; two scalars give `scalar_binop_result`, with a cast for each
/// numeric operand whose type differs from the result.
pub fn numeric_binop(a: &Ty, b: &Ty, a_sp: Span, b_sp: Span) -> (r: Result<(Ty, Vec<CastHint>), String>)
    ensures
        !(a is Vec) && !(b is Vec) ==> (r is Ok <==> scalar_binop_result(*a, *b) is Some),
        !(a is Vec) && !(b is Vec) ==> (r matches Ok((t, casts)) ==> names_ty(t, scalar_binop_result(*a, *b)->Some_0)
            && operand_casts(*a, *b, a_sp, b_sp, scalar_binop_result(*a, *b)->Some_0, casts@)),
{
    let vec_part = match (a, b) {
        (Ty::Vec(inner), other) => Some((&**inner, other)),
        (other, Ty::Vec(inner)) => Some((&**inner, other)),
        _ => None,
    };
    if let Some((elem, scalar)) = vec_part {
        if let Ty::Vec(_) = scalar {
            return Err(String::from_str("vector-vector numeric ops are not supported"));
        }
        if !crate::ast::ty_eq(elem, scalar) {
            let er = elem.rust();
            let sr = scalar.rust();
            return Err(concat5("vector-scalar numeric ops require matching element type, got '", er.as_str(), "' and '", sr.as_str(), "'"));
        }
        return Ok((Ty::Vec(Box::new(crate::ast::clone_ty(elem))), Vec::new()));
    }
    let out = match numeric_scalar_binop(a, b) {
        Ok(t) => t,
        Err(m) => return Err(m),
    };
    let mut casts: Vec<CastHint> = Vec::new();
    let outr = out.rust();
    let ar = a.rust();
    let br = b.rust();
    if outr != ar && is_numeric(a) {
        casts.push(CastHint { span: a_sp, target: crate::ast::clone_ty(&out) });
    }
    if outr != br && is_numeric(b) {
        casts.push(CastHint { span: b_sp, target: crate::ast::clone_ty(&out) });
    }
    Ok((out, casts))
}

/// The result type and casts of `mod` or a bitwise operator on two
/// declared types: both integers; the same type, or `i64` with casts.
pub fn integer_binop(a: &Ty, b: &Ty, a_sp: Span, b_sp: Span) -> (r: Result<(Ty, Vec<CastHint>), String>)
    ensures
        !(a is Vec) && !(b is Vec) ==> (r is Ok <==> (a is Named && integer_name(a->Named_0@)
            && b is Named && integer_name(b->Named_0@))),
        !(a is Vec) && !(b is Vec) ==> (r matches Ok((t, casts)) ==> names_ty(t, integer_binop_result(*a, *b))
            && operand_casts(*a, *b, a_sp, b_sp, integer_binop_result(*a, *b), casts@)),
{
    let vec_part = match (a, b) {
        (Ty::Vec(inner), other) => Some((&**inner, other)),
        (other, Ty::Vec(inner)) => Some((&**inner, other)),
        _ => None,
    };
    if let Some((elem, scalar)) = vec_part {
        if let Ty::Vec(_) = scalar {
            return Err(String::from_str("vector-vector mod is not supported"));
        }
        if !is_integer(elem) || !is_integer(scalar) {
            return Err(String::from_str("mod expects integer types"));
        }
        if !crate::ast::ty_eq(elem, scalar) {
            let er = elem.rust();
            let sr = scalar.rust();
            return Err(concat5("vector-scalar mod requires matching element type, got '", er.as_str(), "' and '", sr.as_str(), "'"));
        }
        return Ok((Ty::Vec(Box::new(crate::ast::clone_ty(elem))), Vec::new()));
    }
    if !is_integer(a) || !is_integer(b) {
        let ar = a.rust();
        let br = b.rust();
        return Err(concat5("mod expects integer types, got '", ar.as_str(), "' and '", br.as_str(), "'"));
    }
    let out = if crate::ast::ty_eq(a, b) {
        crate::ast::clone_ty(a)
    } else {
        Ty::Named(String::from_str("i64"))
    };
    let mut casts: Vec<CastHint> = Vec::new();
    let outr = out.rust();
    let ar = a.rust();
    let br = b.rust();
    if outr != ar {
        casts.push(CastHint { span: a_sp, target: crate::ast::clone_ty(&out) });
    }
    if outr != br {
        casts.push(CastHint { span: b_sp, target: crate::ast::clone_ty(&out) });
    }
    Ok((out, casts))
}

/// Types an arithmetic (`integer` false) or integer (`integer` true)
/// operator on two inference types: variables are unified with the other
/// side (with a vector's element type), and a variable result is recorded
/// as numeric; otherwise the declared types decide.
pub fn infer_binop(ctx: &mut InferCtx, a: &InferTy, b: &InferTy, a_sp: Span, b_sp: Span, op_sp: Span, integer: bool) -> (r: DslResult<(InferTy, Vec<CastHint>)>)
    requires
        old(ctx).wf(),
    ensures
        final(ctx).wf(),
        !integer && apply(old(ctx).subs@, *a) is Named && apply(old(ctx).subs@, *b) is Named ==> (r matches Ok((t, casts))
            ==> scalar_binop_typed(apply(old(ctx).subs@, *a)->Named_0, apply(old(ctx).subs@, *b)->Named_0, a_sp, b_sp, t, casts@)),
        integer && apply(old(ctx).subs@, *a) is Named && apply(old(ctx).subs@, *b) is Named ==> (r matches Ok((t, casts))
            ==> integer_binop_typed(apply(old(ctx).subs@, *a)->Named_0, apply(old(ctx).subs@, *b)->Named_0, a_sp, b_sp, t, casts@)),
{
    let ghost s0 = ctx.subs@;
    let a_res0 = ctx.resolve(a);
    let b_res0 = ctx.resolve(b);
    let unified = match (&a_res0, &b_res0) {
        (InferTy::Var(_), InferTy::Var(_)) => {
            match ctx.unify(&a_res0, &b_res0, op_sp) {
                Ok(()) => {},
                Err(e) => return Err(e),
            }
            let merged = ctx.resolve(&a_res0);
            ctx.numeric_constraints.push((clone_ity(&merged), op_sp));
            return Ok((merged, Vec::new()));
        },
        (InferTy::Var(_), InferTy::Vec(inner)) => ctx.unify(&a_res0, inner, op_sp),
        (InferTy::Vec(inner), InferTy::Var(_)) => ctx.unify(&b_res0, inner, op_sp),
        (InferTy::Var(_), _) => ctx.unify(&a_res0, &b_res0, op_sp),
        (_, InferTy::Var(_)) => ctx.unify(&b_res0, &a_res0, op_sp),
        _ => Ok(()),
    };
    if let Err(e) = unified {
        return Err(e);
    }
    let a_res = ctx.resolve(&a_res0);
    let b_res = ctx.resolve(&b_res0);
    let a_var = matches!(a_res, InferTy::Var(_));
    let b_var = matches!(b_res, InferTy::Var(_));
    if a_var || b_var {
        let vec_inner = match (&a_res, &b_res) {
            (InferTy::Vec(inner), _) => Some(clone_ity(inner)),
            (_, InferTy::Vec(inner)) => Some(clone_ity(inner)),
            _ => None,
        };
        if let Some(inner) = vec_inner {
            let inner_res = ctx.resolve(&inner);
            if matches!(inner_res, InferTy::Var(_)) {
                ctx.numeric_constraints.push((inner_res, op_sp));
            }
            return Ok((InferTy::Vec(Box::new(inner)), Vec::new()));
        }
        let merged = if a_var { a_res } else { b_res };
        ctx.numeric_constraints.push((clone_ity(&merged), op_sp));
        return Ok((merged, Vec::new()));
    }
    let a_ty = match infer_to_ty(ctx, &a_res) {
        Some(t) => t,
        None => {
            let shown = infer_ty_rust(ctx, &a_res);
            let msg = concat3(if integer { "ambiguous integer operator types: '" } else { "ambiguous numeric operator types: '" }, shown.as_str(), "'");
            return Err(Diag::from_message(msg).with_span(op_sp));
        },
    };
    let b_ty = match infer_to_ty(ctx, &b_res) {
        Some(t) => t,
        None => {
            let shown = infer_ty_rust(ctx, &b_res);
            let msg = concat3(if integer { "ambiguous integer operator types: '" } else { "ambiguous numeric operator types: '" }, shown.as_str(), "'");
            return Err(Diag::from_message(msg).with_span(op_sp));
        },
    };
    let typed = if integer {
        integer_binop(&a_ty, &b_ty, a_sp, b_sp)
    } else {
        numeric_binop(&a_ty, &b_ty, a_sp, b_sp)
    };
    match typed {
        Ok((out, casts)) => match infer_from_ty(ctx, &out) {
            Ok(t) => {
                proof {
                    if apply(s0, *a) is Named && apply(s0, *b) is Named {
                        assert(names_ty(a_ty, apply(s0, *a)->Named_0));
                        assert(names_ty(b_ty, apply(s0, *b)->Named_0));
                    }
                }
                Ok((t, casts))
            },
            Err(e) => Err(e),
        },
        Err(m) => Err(Diag::from_message(m).with_span(op_sp)),
    }
}

fn contains_u32(v: &Vec<u32>, x: u32) -> (b: bool)
    ensures
        b == v@.contains(x),
{
    let mut i: usize = 0;
    while i < v.len()
        invariant
            i <= v@.len(),
            forall|j: int| 0 <= j < i ==> v@[j] != x,
        decreases v@.len() - i,
    {
        if v[i] == x {
            return true;
        }
        i = i + 1;
    }
    false
}

/// Each recorded numeric constraint: a variable not in `keep_vars`
/// becomes `i64`; a resolved type must be a concrete numeric type.
pub fn check_numeric_constraints(ctx: &mut InferCtx, keep_vars: &Vec<u32>) -> (r: DslResult<()>)
    requires
        old(ctx).wf(),
    ensures
        final(ctx).wf(),
{
    let n = ctx.numeric_constraints.len();
    let mut i: usize = 0;
    while i < n
        invariant
            ctx.wf(),
            n == ctx.numeric_constraints@.len(),
            i <= n,
        decreases n - i,
    {
        let ty = clone_ity(&ctx.numeric_constraints[i].0);
        let span = ctx.numeric_constraints[i].1;
        let resolved = ctx.resolve(&ty);
        if let InferTy::Var(id) = resolved {
            if !contains_u32(keep_vars, id) && (id as usize) < ctx.subs.len() {
                proof { lemma_var_unbound(ctx.subs@, ty, id); }
                ctx.bind(id, named("i64"));
            }
        } else {
            let concrete = match resolved_to_ty(&resolved) {
                Some(t) => t,
                None => return Err(Diag::new("ambiguous numeric operator types; add a literal or annotation").with_span(span)),
            };
            if !is_numeric(&concrete) {
                let shown = concrete.rust();
                let msg = concat3("operator expects numeric type, got '", shown.as_str(), "'");
                return Err(Diag::from_message(msg).with_span(span));
            }
        }
        i = i + 1;
    }
    Ok(())
}

/// Each recorded integer constraint: a variable not in `keep_vars`
/// becomes `i64`; a resolved type must be an integer type.
pub fn check_int_constraints(ctx: &mut InferCtx, keep_vars: &Vec<u32>) -> (r: DslResult<()>)
    requires
        old(ctx).wf(),
    ensures
        final(ctx).wf(),
{
    let n = ctx.int_constraints.len();
    let mut i: usize = 0;
    while i < n
        invariant
            ctx.wf(),
            n == ctx.int_constraints@.len(),
            i <= n,
        decreases n - i,
    {
        let ty = clone_ity(&ctx.int_constraints[i].0);
        let span = ctx.int_constraints[i].1;
        let resolved = ctx.resolve(&ty);
        match &resolved {
            InferTy::Var(id) => {
                if !contains_u32(keep_vars, *id) && (*id as usize) < ctx.subs.len() {
                    proof { lemma_var_unbound(ctx.subs@, ty, *id); }
                    ctx.bind(*id, named("i64"));
                }
            },
            InferTy::Named(name) => {
                if !is_integer_name(name) {
                    return Err(Diag::new("index expects integer type").with_span(span));
                }
            },
            _ => return Err(Diag::new("index expects integer type").with_span(span)),
        }
        i = i + 1;
    }
    Ok(())
}

// ---------------------------------------------------------------------------
// Shapes that an argument must have

/// The element type of a vector argument; a variable becomes a vector of
/// a fresh element variable.
pub fn ensure_vec_arg(ctx: &mut InferCtx, ty: &InferTy, span: Span) -> (r: DslResult<InferTy>)
    requires
        old(ctx).wf(),
    ensures
        final(ctx).wf(),
        apply(old(ctx).subs@, *ty) matches TyView::Vec(x) ==> (r matches Ok(t) && view_of(t) == *x)
            && *final(ctx) == *old(ctx),
        !(apply(old(ctx).subs@, *ty) is Vec) && !(apply(old(ctx).subs@, *ty) is Var) ==> r is Err
            && r->Err_0.message@ == "expected vector type"@ && r->Err_0.span == Some(span),
{
    let resolved = ctx.resolve(ty);
    match resolved {
        InferTy::Vec(inner) => Ok(*inner),
        InferTy::Var(_) => {
            let elem = match ctx.fresh_var() {
                Ok(t) => t,
                Err(e) => return Err(e),
            };
            let vec_ty = InferTy::Vec(Box::new(clone_ity(&elem)));
            match ctx.unify(&resolved, &vec_ty, span) {
                Ok(()) => Ok(elem),
                Err(e) => Err(e),
            }
        },
        _ => Err(Diag::new("expected vector type").with_span(span)),
    }
}

/// An integer argument; a variable is recorded as integer.
pub fn ensure_int_arg(ctx: &mut InferCtx, ty: &InferTy, span: Span) -> (r: DslResult<InferTy>)
    requires
        old(ctx).wf(),
    ensures
        final(ctx).wf(),
        apply(old(ctx).subs@, *ty) is Var ==> (r matches Ok(t) && view_of(t) == apply(old(ctx).subs@, *ty))
            && final(ctx).subs@ == old(ctx).subs@
            && final(ctx).int_constraints@.len() == old(ctx).int_constraints@.len() + 1
            && view_of(final(ctx).int_constraints@.last().0) == apply(old(ctx).subs@, *ty)
            && final(ctx).int_constraints@.last().1 == span,
        apply(old(ctx).subs@, *ty) matches TyView::Named(n) ==> (integer_name(n) ==> (r matches Ok(t)
            && view_of(t) == apply(old(ctx).subs@, *ty)) && *final(ctx) == *old(ctx))
            && (!integer_name(n) ==> r is Err && r->Err_0.message@ == "index expects integer type"@),
        !(apply(old(ctx).subs@, *ty) is Var) && !(apply(old(ctx).subs@, *ty) is Named) ==> r is Err
            && r->Err_0.message@ == "index expects integer type"@ && r->Err_0.span == Some(span),
{
    let resolved = ctx.resolve(ty);
    match &resolved {
        InferTy::Var(_) => {
            ctx.int_constraints.push((clone_ity(&resolved), span));
            Ok(resolved)
        },
        InferTy::Named(name) => {
            if is_integer_name(name) {
                Ok(resolved)
            } else {
                Err(Diag::new("index expects integer type").with_span(span))
            }
        },
        _ => Err(Diag::new("index expects integer type").with_span(span)),
    }
}

/// The inner type of an option argument.
pub fn ensure_option_arg(ctx: &mut InferCtx, ty: &InferTy, span: Span) -> (r: DslResult<InferTy>)
    requires
        old(ctx).wf(),
    ensures
        final(ctx).wf(),
        apply(old(ctx).subs@, *ty) matches TyView::Option(x) ==> (r matches Ok(t) && view_of(t) == *x)
            && *final(ctx) == *old(ctx),
        !(apply(old(ctx).subs@, *ty) is Option) && !(apply(old(ctx).subs@, *ty) is Var) ==> r is Err
            && r->Err_0.message@ == "expected option type"@ && r->Err_0.span == Some(span),
{
    let resolved = ctx.resolve(ty);
    match resolved {
        InferTy::Option(inner) => Ok(*inner),
        InferTy::Var(_) => {
            let inner = match ctx.fresh_var() {
                Ok(t) => t,
                Err(e) => return Err(e),
            };
            let opt = InferTy::Option(Box::new(clone_ity(&inner)));
            match ctx.unify(&resolved, &opt, span) {
                Ok(()) => Ok(inner),
                Err(e) => Err(e),
            }
        },
        _ => Err(Diag::new("expected option type").with_span(span)),
    }
}

/// The ok and error types of a result argument.
pub fn ensure_result_arg(ctx: &mut InferCtx, ty: &InferTy, span: Span) -> (r: DslResult<(InferTy, InferTy)>)
    requires
        old(ctx).wf(),
    ensures
        final(ctx).wf(),
        apply(old(ctx).subs@, *ty) matches TyView::Result(x, y) ==> (r matches Ok((a, b)) && view_of(a) == *x
            && view_of(b) == *y) && *final(ctx) == *old(ctx),
        !(apply(old(ctx).subs@, *ty) is Result) && !(apply(old(ctx).subs@, *ty) is Var) ==> r is Err
            && r->Err_0.message@ == "expected result type"@ && r->Err_0.span == Some(span),
{
    let resolved = ctx.resolve(ty);
    match resolved {
        InferTy::Result(ok, err) => Ok((*ok, *err)),
        InferTy::Var(_) => {
            let ok = match ctx.fresh_var() {
                Ok(t) => t,
                Err(e) => return Err(e),
            };
            let err = match ctx.fresh_var() {
                Ok(t) => t,
                Err(e) => return Err(e),
            };
            let res = InferTy::Result(Box::new(clone_ity(&ok)), Box::new(clone_ity(&err)));
            match ctx.unify(&resolved, &res, span) {
                Ok(()) => Ok((ok, err)),
                Err(e) => Err(e),
            }
        },
        _ => Err(Diag::new("expected result type").with_span(span)),
    }
}

/// The key and value types of a map argument of the given kind.
pub fn ensure_map_arg(ctx: &mut InferCtx, ty: &InferTy, kind: MapKind, span: Span) -> (r: DslResult<(InferTy, InferTy)>)
    requires
        old(ctx).wf(),
    ensures
        final(ctx).wf(),
        apply(old(ctx).subs@, *ty) matches TyView::MapOf(k, x, y) ==> *final(ctx) == *old(ctx)
            && (k == kind ==> (r matches Ok((a, b)) && view_of(a) == *x && view_of(b) == *y))
            && (k != kind ==> r is Err && r->Err_0.message@ == "map kind mismatch"@ && r->Err_0.span == Some(span)),
        !(apply(old(ctx).subs@, *ty) is MapOf) && !(apply(old(ctx).subs@, *ty) is Var) ==> r is Err
            && r->Err_0.message@ == "expected map type"@ && r->Err_0.span == Some(span),
{
    let resolved = ctx.resolve(ty);
    match resolved {
        InferTy::MapOf(k, kty, vty) => {
            if k != kind {
                return Err(Diag::new("map kind mismatch").with_span(span));
            }
            Ok((*kty, *vty))
        },
        InferTy::Var(_) => {
            let k = match ctx.fresh_var() {
                Ok(t) => t,
                Err(e) => return Err(e),
            };
            let v = match ctx.fresh_var() {
                Ok(t) => t,
                Err(e) => return Err(e),
            };
            let map = InferTy::MapOf(kind, Box::new(clone_ity(&k)), Box::new(clone_ity(&v)));
            match ctx.unify(&resolved, &map, span) {
                Ok(()) => Ok((k, v)),
                Err(e) => Err(e),
            }
        },
        _ => Err(Diag::new("expected map type").with_span(span)),
    }
}

/// A copy of `t` in which each variable is replaced by a fresh one, the
/// same variable always by the same fresh one (recorded in `map`).
pub fn freshen_infer_ty(ctx: &mut InferCtx, t: &InferTy, map: &mut Vec<(u32, InferTy)>) -> (r: DslResult<InferTy>)
    requires
        old(ctx).wf(),
    ensures
        final(ctx).wf(),
        final(ctx).numeric_constraints@ == old(ctx).numeric_constraints@,
        final(ctx).int_constraints@ == old(ctx).int_constraints@,
{
    let r = ctx.resolve(t);
    freshen_resolved(ctx, &r, map)
}

fn freshen_resolved(ctx: &mut InferCtx, t: &InferTy, map: &mut Vec<(u32, InferTy)>) -> (r: DslResult<InferTy>)
    requires
        old(ctx).wf(),
    ensures
        final(ctx).wf(),
        final(ctx).numeric_constraints@ == old(ctx).numeric_constraints@,
        final(ctx).int_constraints@ == old(ctx).int_constraints@,
    decreases t,
{
    match t {
        InferTy::Var(id) => {
            let mut i: usize = 0;
            while i < map.len()
                invariant
                    i <= map@.len(),
                    ctx.wf(),
                    ctx.numeric_constraints@ == old(ctx).numeric_constraints@,
                    ctx.int_constraints@ == old(ctx).int_constraints@,
                decreases map@.len() - i,
            {
                if map[i].0 == *id {
                    return Ok(clone_ity(&map[i].1));
                }
                i = i + 1;
            }
            match ctx.fresh_var() {
                Ok(v) => {
                    map.push((*id, clone_ity(&v)));
                    Ok(v)
                },
                Err(e) => Err(e),
            }
        },
        InferTy::Named(n) => Ok(InferTy::Named(copy(n))),
        InferTy::Vec(x) => match freshen_resolved(ctx, x, map) {
            Ok(y) => Ok(InferTy::Vec(Box::new(y))),
            Err(e) => Err(e),
        },
        InferTy::SetOf(x) => match freshen_resolved(ctx, x, map) {
            Ok(y) => Ok(InferTy::SetOf(Box::new(y))),
            Err(e) => Err(e),
        },
        InferTy::Option(x) => match freshen_resolved(ctx, x, map) {
            Ok(y) => Ok(InferTy::Option(Box::new(y))),
            Err(e) => Err(e),
        },
        InferTy::Result(x, y) => {
            let a = match freshen_resolved(ctx, x, map) {
                Ok(a) => a,
                Err(e) => return Err(e),
            };
            match freshen_resolved(ctx, y, map) {
                Ok(b) => Ok(InferTy::Result(Box::new(a), Box::new(b))),
                Err(e) => Err(e),
            }
        },
        InferTy::MapOf(k, x, y) => {
            let a = match freshen_resolved(ctx, x, map) {
                Ok(a) => a,
                Err(e) => return Err(e),
            };
            match freshen_resolved(ctx, y, map) {
                Ok(b) => Ok(InferTy::MapOf(*k, Box::new(a), Box::new(b))),
                Err(e) => Err(e),
            }
        },
        InferTy::Fn(ps, r) => {
            let qs = match freshen_all(ctx, ps, map) {
                Ok(q) => q,
                Err(e) => return Err(e),
            };
            match freshen_resolved(ctx, r, map) {
                Ok(b) => Ok(InferTy::Fn(qs, Box::new(b))),
                Err(e) => Err(e),
            }
        },
    }
}

fn freshen_all(ctx: &mut InferCtx, ts: &Vec<InferTy>, map: &mut Vec<(u32, InferTy)>) -> (r: DslResult<Vec<InferTy>>)
    requires
        old(ctx).wf(),
    ensures
        final(ctx).wf(),
        final(ctx).numeric_constraints@ == old(ctx).numeric_constraints@,
        final(ctx).int_constraints@ == old(ctx).int_constraints@,
    decreases ts,
{
    let mut out: Vec<InferTy> = Vec::new();
    let mut i: usize = 0;
    while i < ts.len()
        invariant
            i <= ts@.len(),
            ctx.wf(),
            ctx.numeric_constraints@ == old(ctx).numeric_constraints@,
            ctx.int_constraints@ == old(ctx).int_constraints@,
        decreases ts@.len() - i,
    {
        match freshen_resolved(ctx, &ts[i], map) {
            Ok(t) => out.push(t),
            Err(e) => return Err(e),
        }
        i = i + 1;
    }
    Ok(out)
}

} // verus!
