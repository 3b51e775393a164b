//! The trait bounds a generic function needs, read off the operations its
//! body applies to values of generic type.

use vstd::prelude::*;
use crate::ast::{clone_ty, ty_eq, ty_same, Expr, Iterable, Ty};
use crate::ownership::has_key;
use crate::specialize::lookup_type;
use crate::text::str_is;
use crate::typed::{GenericBound, SpanKey};

verus! {

/// Two bounds are the same bound.
pub open spec fn bound_same(a: GenericBound, b: GenericBound) -> bool {
    match (a, b) {
        (GenericBound::Push(x), GenericBound::Push(y)) => ty_same(x, y),
        (GenericBound::Push(_), _) => false,
        (_, GenericBound::Push(_)) => false,
        _ => a == b,
    }
}

/// Decides `bound_same`.
pub fn bound_eq(a: &GenericBound, b: &GenericBound) -> (r: bool)
    ensures
        r == bound_same(*a, *b),
{
    match (a, b) {
        (GenericBound::Copy, GenericBound::Copy) => true,
        (GenericBound::Clone, GenericBound::Clone) => true,
        (GenericBound::Add, GenericBound::Add) => true,
        (GenericBound::Sub, GenericBound::Sub) => true,
        (GenericBound::Mul, GenericBound::Mul) => true,
        (GenericBound::Div, GenericBound::Div) => true,
        (GenericBound::PartialEq, GenericBound::PartialEq) => true,
        (GenericBound::PartialOrd, GenericBound::PartialOrd) => true,
        (GenericBound::Len, GenericBound::Len) => true,
        (GenericBound::IsEmpty, GenericBound::IsEmpty) => true,
        (GenericBound::Push(x), GenericBound::Push(y)) => ty_eq(x, y),
        (GenericBound::FromInt, GenericBound::FromInt) => true,
        (GenericBound::Debug, GenericBound::Debug) => true,
        _ => false,
    }
}

/// A copy of a bound.
pub fn clone_bound(b: &GenericBound) -> (r: GenericBound)
    ensures
        bound_same(r, *b),
{
    match b {
        GenericBound::Copy => GenericBound::Copy,
        GenericBound::Clone => GenericBound::Clone,
        GenericBound::Add => GenericBound::Add,
        GenericBound::Sub => GenericBound::Sub,
        GenericBound::Mul => GenericBound::Mul,
        GenericBound::Div => GenericBound::Div,
        GenericBound::PartialEq => GenericBound::PartialEq,
        GenericBound::PartialOrd => GenericBound::PartialOrd,
        GenericBound::Len => GenericBound::Len,
        GenericBound::IsEmpty => GenericBound::IsEmpty,
        GenericBound::Push(t) => GenericBound::Push(clone_ty(t)),
        GenericBound::FromInt => GenericBound::FromInt,
        GenericBound::Debug => GenericBound::Debug,
    }
}

/// No two entries of `bounds` are for the same type parameter.
pub open spec fn ids_unique(bounds: Seq<(u32, Vec<GenericBound>)>) -> bool {
    forall|i: int, j: int| 0 <= i < bounds.len() && 0 <= j < bounds.len() && i != j
        ==> (#[trigger] bounds[i]).0 != (#[trigger] bounds[j]).0
}

/// Whether `bounds` records a bound the same as `b` for `id`.
pub open spec fn has_bound(bounds: Seq<(u32, Vec<GenericBound>)>, id: u32, b: GenericBound) -> bool {
    exists|i: int, k: int| 0 <= i < bounds.len() && (#[trigger] bounds[i]).0 == id && 0 <= k < bounds[i].1@.len()
        && bound_same(#[trigger] bounds[i].1@[k], b)
}

/// Whether `bounds` has an entry for `id`.
pub open spec fn has_entry(bounds: Seq<(u32, Vec<GenericBound>)>, id: u32) -> bool {
    exists|i: int| 0 <= i < bounds.len() && (#[trigger] bounds[i]).0 == id
}

/// Every bound recorded in `a` is recorded in `b`.
pub open spec fn bounds_grow(a: Seq<(u32, Vec<GenericBound>)>, b: Seq<(u32, Vec<GenericBound>)>) -> bool {
    forall|id: u32, x: GenericBound| #[trigger] has_bound(a, id, x) ==> has_bound(b, id, x)
}

/// Records the bound `bound` for the type parameter `id`, unless the same
/// bound is already recorded for it.
pub fn add_bound(bounds: &mut Vec<(u32, Vec<GenericBound>)>, id: u32, bound: GenericBound)
    requires
        ids_unique(old(bounds)@),
    ensures
        ids_unique(final(bounds)@),
        has_bound(final(bounds)@, id, bound),
        bounds_grow(old(bounds)@, final(bounds)@),
        forall|other: u32, x: GenericBound| other != id ==> (#[trigger] has_bound(final(bounds)@, other, x)
            <==> has_bound(old(bounds)@, other, x)),
{
    let ghost b0 = bounds@;
    let mut i: usize = 0;
    while i < bounds.len()
        invariant
            bounds@ == b0,
            b0 == old(bounds)@,
            ids_unique(b0),
            i <= b0.len(),
            forall|j: int| 0 <= j < i ==> (#[trigger] b0[j]).0 != id,
        decreases b0.len() - i,
    {
        if bounds[i].0 == id {
            let mut k: usize = 0;
            while k < bounds[i].1.len()
                invariant
                    bounds@ == b0,
                    b0 == old(bounds)@,
                    ids_unique(b0),
                    i < b0.len(),
                    b0[i as int].0 == id,
                    k <= b0[i as int].1@.len(),
                decreases b0[i as int].1@.len() - k,
            {
                if bound_eq(&bounds[i].1[k], &bound) {
                    proof {
                        lemma_bound_same_symmetric(b0[i as int].1@[k as int], bound);
                        assert(bound_same(b0[i as int].1@[k as int], bound));
                    }
                    return;
                }
                k = k + 1;
            }
            let (eid, mut list) = bounds.remove(i);
            let ghost l0 = list@;
            list.push(bound);
            bounds.insert(i, (eid, list));
            proof {
                let b1 = bounds@;
                assert(b1 =~= b0.update(i as int, (eid, list)));
                assert(list@.subrange(0, l0.len() as int) =~= l0);
                lemma_extend_entry(b0, i as int, list);
                assert(b1[i as int].1@[l0.len() as int] == bound);
                lemma_bound_same_refl(bound);
                assert(bound_same(b1[i as int].1@[l0.len() as int], bound));
                assert(has_bound(b1, id, bound));
            }
            return;
        }
        i = i + 1;
    }
    let mut list: Vec<GenericBound> = Vec::new();
    list.push(bound);
    bounds.push((id, list));
    proof {
        let b1 = bounds@;
        let last = b0.len() as int;
        assert(b1[last].1@[0] == bound);
        lemma_bound_same_refl(bound);
        assert(has_bound(b1, id, bound));
        assert forall|a: int, c: int| 0 <= a < b1.len() && 0 <= c < b1.len() && a != c
            implies (#[trigger] b1[a]).0 != (#[trigger] b1[c]).0 by {
            if a < last && c < last {
                assert(b1[a] == b0[a]);
                assert(b1[c] == b0[c]);
            } else if a == last {
                assert(b1[c] == b0[c]);
            } else {
                assert(b1[a] == b0[a]);
            }
        }
        assert forall|other: u32, x: GenericBound| #[trigger] has_bound(b0, other, x) implies has_bound(b1, other, x) by {
            let (a, c) = choose|a: int, c: int| 0 <= a < b0.len() && (#[trigger] b0[a]).0 == other
                && 0 <= c < b0[a].1@.len() && bound_same(#[trigger] b0[a].1@[c], x);
            assert(b1[a] == b0[a]);
        }
        assert forall|other: u32, x: GenericBound| other != id implies (#[trigger] has_bound(b1, other, x)
            <==> has_bound(b0, other, x)) by {
            if has_bound(b1, other, x) {
                let (a, c) = choose|a: int, c: int| 0 <= a < b1.len() && (#[trigger] b1[a]).0 == other
                    && 0 <= c < b1[a].1@.len() && bound_same(#[trigger] b1[a].1@[c], x);
                assert(a != last);
                assert(b1[a] == b0[a]);
            }
        }
    }
}

/// Growing one entry's list of bounds keeps every recorded bound and the
/// other entries.
proof fn lemma_extend_entry(b0: Seq<(u32, Vec<GenericBound>)>, i: int, l: Vec<GenericBound>)
    requires
        ids_unique(b0),
        0 <= i < b0.len(),
        l@.len() >= b0[i].1@.len(),
        l@.subrange(0, b0[i].1@.len() as int) == b0[i].1@,
    ensures
        ids_unique(b0.update(i, (b0[i].0, l))),
        bounds_grow(b0, b0.update(i, (b0[i].0, l))),
        forall|other: u32, x: GenericBound| other != b0[i].0 ==> (#[trigger] has_bound(b0.update(i, (b0[i].0, l)), other, x)
            <==> has_bound(b0, other, x)),
{
    let b1 = b0.update(i, (b0[i].0, l));
    assert forall|a: int, c: int| 0 <= a < b1.len() && 0 <= c < b1.len() && a != c
        implies (#[trigger] b1[a]).0 != (#[trigger] b1[c]).0 by {
        assert(b0[a].0 == b1[a].0);
        assert(b0[c].0 == b1[c].0);
    }
    assert forall|other: u32, x: GenericBound| #[trigger] has_bound(b0, other, x) implies has_bound(b1, other, x) by {
        let a = choose|a: int| exists|c: int| 0 <= a < b0.len() && (#[trigger] b0[a]).0 == other
            && 0 <= c < b0[a].1@.len() && bound_same(#[trigger] b0[a].1@[c], x);
        let c = choose|c: int| 0 <= a < b0.len() && (#[trigger] b0[a]).0 == other
            && 0 <= c < b0[a].1@.len() && bound_same(#[trigger] b0[a].1@[c], x);
        if a == i {
            assert(l@.subrange(0, b0[i].1@.len() as int)[c] == l@[c]);
            assert(b1[a].1@[c] == b0[a].1@[c]);
        } else {
            assert(b1[a] == b0[a]);
        }
        assert(b1[a].0 == other && bound_same(b1[a].1@[c], x));
    }
    assert forall|other: u32, x: GenericBound| other != b0[i].0 implies (#[trigger] has_bound(b1, other, x)
        <==> has_bound(b0, other, x)) by {
        if has_bound(b1, other, x) {
            let a = choose|a: int| exists|c: int| 0 <= a < b1.len() && (#[trigger] b1[a]).0 == other
                && 0 <= c < b1[a].1@.len() && bound_same(#[trigger] b1[a].1@[c], x);
            let c = choose|c: int| 0 <= a < b1.len() && (#[trigger] b1[a]).0 == other
                && 0 <= c < b1[a].1@.len() && bound_same(#[trigger] b1[a].1@[c], x);
            assert(a != i);
            assert(b1[a] == b0[a]);
            assert(b0[a].0 == other && bound_same(b0[a].1@[c], x));
        }
        if has_bound(b0, other, x) {
            let a = choose|a: int| exists|c: int| 0 <= a < b0.len() && (#[trigger] b0[a]).0 == other
                && 0 <= c < b0[a].1@.len() && bound_same(#[trigger] b0[a].1@[c], x);
            let c = choose|c: int| 0 <= a < b0.len() && (#[trigger] b0[a]).0 == other
                && 0 <= c < b0[a].1@.len() && bound_same(#[trigger] b0[a].1@[c], x);
            assert(a != i);
            assert(b1[a] == b0[a]);
            assert(b1[a].0 == other && bound_same(b1[a].1@[c], x));
        }
    }
}

proof fn lemma_bound_same_refl(b: GenericBound)
    ensures
        bound_same(b, b),
{
    if let GenericBound::Push(t) = b {
        crate::ast::lemma_ty_same_refl(t);
    }
}

proof fn lemma_bound_same_symmetric(a: GenericBound, b: GenericBound)
    ensures
        bound_same(a, b) == bound_same(b, a),
{
    if let (GenericBound::Push(x), GenericBound::Push(y)) = (a, b) {
        crate::ast::lemma_ty_same_symmetric(x, y);
    }
}

/// Whether the type parameter `id` occurs in `t`.
pub open spec fn mentions_generic(t: Ty, id: u32) -> bool
    decreases t,
{
    match t {
        Ty::Generic(g) => g == id,
        Ty::Vec(x) => mentions_generic(*x, id),
        Ty::SetOf(x) => mentions_generic(*x, id),
        Ty::Option(x) => mentions_generic(*x, id),
        Ty::Result(x, y) => mentions_generic(*x, id) || mentions_generic(*y, id),
        Ty::MapOf(_, x, y) => mentions_generic(*x, id) || mentions_generic(*y, id),
        Ty::Union(xs) => exists|i: int| 0 <= i < xs@.len() && mentions_generic(#[trigger] xs@[i], id),
        Ty::Named(_) => false,
        Ty::Unknown => false,
    }
}

/// Appends the type parameters occurring in `t` to `out`, left to right.
pub fn collect_generic_ids(t: &Ty, out: &mut Vec<u32>)
    ensures
        final(out)@.len() >= old(out)@.len(),
        final(out)@.subrange(0, old(out)@.len() as int) == old(out)@,
        forall|id: u32| #[trigger] final(out)@.contains(id) <==> (old(out)@.contains(id) || mentions_generic(*t, id)),
    decreases t,
{
    let ghost o0 = out@;
    match t {
        Ty::Generic(id) => {
            out.push(*id);
            proof {
                assert forall|x: u32| #[trigger] out@.contains(x) <==> (o0.contains(x) || mentions_generic(*t, x)) by {
                    if out@.contains(x) {
                        let k = choose|k: int| 0 <= k < out@.len() && out@[k] == x;
                        if k < o0.len() {
                            assert(o0[k] == x);
                        }
                    }
                    if o0.contains(x) {
                        let k = choose|k: int| 0 <= k < o0.len() && o0[k] == x;
                        assert(out@[k] == x);
                    }
                    if x == *id {
                        assert(out@[o0.len() as int] == x);
                    }
                }
                assert(out@.subrange(0, o0.len() as int) =~= o0);
            }
        },
        Ty::Vec(x) | Ty::SetOf(x) | Ty::Option(x) => collect_generic_ids(x, out),
        Ty::Result(x, y) | Ty::MapOf(_, x, y) => {
            collect_generic_ids(x, out);
            let ghost o1 = out@;
            collect_generic_ids(y, out);
            proof {
                assert(out@.subrange(0, o0.len() as int) =~= o1.subrange(0, o0.len() as int));
            }
        },
        Ty::Union(xs) => {
            collect_generic_ids_all(xs, out);
            proof {
                assert forall|x: u32| #[trigger] out@.contains(x) <==> (o0.contains(x) || mentions_generic(*t, x)) by {
                    if exists|i: int| 0 <= i < xs@.len() && mentions_generic(#[trigger] xs@[i], x) {
                        let i = choose|i: int| 0 <= i < xs@.len() && mentions_generic(#[trigger] xs@[i], x);
                        assert(mentions_generic(xs@[i], x));
                    }
                }
            }
        },
        Ty::Named(_) | Ty::Unknown => {
            assert(out@.subrange(0, o0.len() as int) =~= o0);
        },
    }
}

fn collect_generic_ids_all(xs: &Vec<Ty>, out: &mut Vec<u32>)
    ensures
        final(out)@.len() >= old(out)@.len(),
        final(out)@.subrange(0, old(out)@.len() as int) == old(out)@,
        forall|id: u32| #[trigger] final(out)@.contains(id) <==> (old(out)@.contains(id)
            || exists|i: int| 0 <= i < xs@.len() && mentions_generic(#[trigger] xs@[i], id)),
    decreases xs,
{
    let ghost o0 = out@;
    let mut i: usize = 0;
    while i < xs.len()
        invariant
            i <= xs@.len(),
            out@.len() >= o0.len(),
            out@.subrange(0, o0.len() as int) == o0,
            forall|id: u32| #[trigger] out@.contains(id) <==> (o0.contains(id)
                || exists|j: int| 0 <= j < i && mentions_generic(#[trigger] xs@[j], id)),
        decreases xs@.len() - i,
    {
        let ghost o1 = out@;
        collect_generic_ids(&xs[i], out);
        proof {
            assert(out@.subrange(0, o0.len() as int) =~= o1.subrange(0, o0.len() as int));
            assert forall|id: u32| #[trigger] out@.contains(id) <==> (o0.contains(id)
                || exists|j: int| 0 <= j < i + 1 && mentions_generic(#[trigger] xs@[j], id)) by {
                if exists|j: int| 0 <= j < i + 1 && mentions_generic(#[trigger] xs@[j], id) {
                    let j = choose|j: int| 0 <= j < i + 1 && mentions_generic(#[trigger] xs@[j], id);
                    if j < i {
                        assert(exists|j2: int| 0 <= j2 < i && mentions_generic(#[trigger] xs@[j2], id));
                    }
                }
                if o1.contains(id) && !o0.contains(id) {
                    let j = choose|j: int| 0 <= j < i && mentions_generic(#[trigger] xs@[j], id);
                    assert(0 <= j < i + 1);
                }
            }
        }
        i = i + 1;
    }
}

/// Whether `bounds` records, for `id`, a bound recorded as the same as `b`.
pub open spec fn bound_recorded(bounds: Seq<(u32, Vec<GenericBound>)>, id: u32, b: GenericBound) -> bool {
    exists|x: GenericBound| #[trigger] has_bound(bounds, id, x) && bound_same(x, b)
}

/// Records `bound` for every type parameter occurring in `t`.
pub fn add_bounds_for_ty(t: &Ty, bounds: &mut Vec<(u32, Vec<GenericBound>)>, bound: &GenericBound)
    requires
        ids_unique(old(bounds)@),
    ensures
        ids_unique(final(bounds)@),
        bounds_grow(old(bounds)@, final(bounds)@),
        forall|id: u32| mentions_generic(*t, id) ==> #[trigger] bound_recorded(final(bounds)@, id, *bound),
{
    let mut ids: Vec<u32> = Vec::new();
    collect_generic_ids(t, &mut ids);
    let ghost b0 = bounds@;
    let mut i: usize = 0;
    while i < ids.len()
        invariant
            i <= ids@.len(),
            ids_unique(bounds@),
            bounds_grow(b0, bounds@),
            forall|j: int| 0 <= j < i ==> #[trigger] bound_recorded(bounds@, ids@[j], *bound),
        decreases ids@.len() - i,
    {
        let ghost b1 = bounds@;
        let c = clone_bound(bound);
        add_bound(bounds, ids[i], c);
        proof {
            assert(has_bound(bounds@, ids@[i as int], c));
            assert(bound_recorded(bounds@, ids@[i as int], *bound));
            assert forall|j: int| 0 <= j < i + 1 implies #[trigger] bound_recorded(bounds@, ids@[j], *bound) by {
                if j < i {
                    assert(bound_recorded(b1, ids@[j], *bound));
                    let x = choose|x: GenericBound| #[trigger] has_bound(b1, ids@[j], x) && bound_same(x, *bound);
                    assert(has_bound(bounds@, ids@[j], x));
                }
            }
        }
        i = i + 1;
    }
    proof {
        assert forall|id: u32| mentions_generic(*t, id) implies #[trigger] bound_recorded(bounds@, id, *bound) by {
            assert(ids@.contains(id));
            let j = choose|j: int| 0 <= j < ids@.len() && ids@[j] == id;
            assert(bound_recorded(bounds@, ids@[j], *bound));
        }
    }
}

/// The type recorded for `e`'s span.
/// The type parameter `id` occurs in the recorded type of `e`.
pub open spec fn type_mentions(types: Seq<(SpanKey, Ty)>, e: Expr, id: u32) -> bool {
    lookup_type_spec(types, crate::typed::span_key(crate::ast::spec_expr_span(e))) matches Some(t)
        && mentions_generic(t, id)
}

fn expr_ty<'a>(types: &'a Vec<(SpanKey, Ty)>, e: &Expr) -> (r: Option<&'a Ty>)
    ensures
        r matches Some(t) ==> lookup_type_spec(types@, crate::typed::span_key(crate::ast::spec_expr_span(*e))) == Some(*t),
        r is None ==> lookup_type_spec(types@, crate::typed::span_key(crate::ast::spec_expr_span(*e))) is None,
{
    let k = SpanKey::new(&e.span());
    proof {
        lemma_lookup_type_spec(types@, k);
    }
    lookup_type(types, k)
}

/// Records `bound` for the type parameters in the type of each of `args`.
fn bound_args(args: &Vec<Expr>, types: &Vec<(SpanKey, Ty)>, bounds: &mut Vec<(u32, Vec<GenericBound>)>, bound: GenericBound)
    requires
        ids_unique(old(bounds)@),
    ensures
        ids_unique(final(bounds)@),
        bounds_grow(old(bounds)@, final(bounds)@),
        forall|i: int, id: u32| 0 <= i < args@.len() && type_mentions(types@, #[trigger] args@[i], id)
            ==> #[trigger] bound_recorded(final(bounds)@, id, bound),
{
    let ghost b0 = bounds@;
    let mut i: usize = 0;
    while i < args.len()
        invariant
            i <= args@.len(),
            ids_unique(bounds@),
            bounds_grow(b0, bounds@),
            forall|j: int, id: u32| 0 <= j < i && type_mentions(types@, #[trigger] args@[j], id)
                ==> #[trigger] bound_recorded(bounds@, id, bound),
        decreases args@.len() - i,
    {
        let ghost before = bounds@;
        if let Some(t) = expr_ty(types, &args[i]) {
            add_bounds_for_ty(t, bounds, &bound);
        }
        proof {
            assert forall|j: int, id: u32| 0 <= j <= i && type_mentions(types@, #[trigger] args@[j], id)
                implies #[trigger] bound_recorded(bounds@, id, bound) by {
                if j < i {
                    assert(bound_recorded(before, id, bound));
                    let x = choose|x: GenericBound| #[trigger] has_bound(before, id, x) && bound_same(x, bound);
                    assert(has_bound(bounds@, id, x));
                }
            }
        }
        i = i + 1;
    }
}

/// Records `a` and then `b` for the type parameters in the types of `args`.
fn bound_args2(args: &Vec<Expr>, types: &Vec<(SpanKey, Ty)>, bounds: &mut Vec<(u32, Vec<GenericBound>)>,
    a: GenericBound, b: GenericBound)
    requires
        ids_unique(old(bounds)@),
    ensures
        ids_unique(final(bounds)@),
        bounds_grow(old(bounds)@, final(bounds)@),
        forall|i: int, id: u32| 0 <= i < args@.len() && #[trigger] type_mentions(types@, args@[i], id)
            ==> bound_recorded(final(bounds)@, id, a) && bound_recorded(final(bounds)@, id, b),
{
    let ghost b0 = bounds@;
    let mut i: usize = 0;
    while i < args.len()
        invariant
            i <= args@.len(),
            ids_unique(bounds@),
            bounds_grow(b0, bounds@),
            forall|j: int, id: u32| 0 <= j < i && #[trigger] type_mentions(types@, args@[j], id)
                ==> bound_recorded(bounds@, id, a) && bound_recorded(bounds@, id, b),
        decreases args@.len() - i,
    {
        let ghost before = bounds@;
        if let Some(t) = expr_ty(types, &args[i]) {
            add_bounds_for_ty(t, bounds, &a);
            let ghost mid = bounds@;
            add_bounds_for_ty(t, bounds, &b);
            proof {
                assert forall|id: u32| mentions_generic(*t, id) implies bound_recorded(bounds@, id, a) by {
                    assert(bound_recorded(mid, id, a));
                    let x = choose|x: GenericBound| #[trigger] has_bound(mid, id, x) && bound_same(x, a);
                    assert(has_bound(bounds@, id, x));
                }
            }
        }
        proof {
            assert forall|j: int, id: u32| 0 <= j <= i && #[trigger] type_mentions(types@, args@[j], id)
                implies bound_recorded(bounds@, id, a) && bound_recorded(bounds@, id, b) by {
                if j < i {
                    let x = choose|x: GenericBound| #[trigger] has_bound(before, id, x) && bound_same(x, a);
                    assert(has_bound(bounds@, id, x));
                    let y = choose|y: GenericBound| #[trigger] has_bound(before, id, y) && bound_same(y, b);
                    assert(has_bound(bounds@, id, y));
                }
            }
        }
        i = i + 1;
    }
}

/// Whether `op` is one of the operator names `a` or `b`.
fn op_is(op: &String, a: &str, b: &str) -> (r: bool)
    ensures
        r == (op@ == a@ || op@ == b@),
{
    str_is(op.as_str(), a) || str_is(op.as_str(), b)
}

/// What a call to `op` needs of the type parameters in its arguments'
/// types, that `bounds` records for `id`: `+ - * /` their trait and `Copy`,
/// `mod` `Copy`, `=` `PartialEq`, the comparisons `PartialOrd`.
pub open spec fn call_bounds_hold(op: Seq<char>, bounds: Seq<(u32, Vec<GenericBound>)>, id: u32) -> bool {
    if op == "+"@ || op == "darcy.op/add"@ {
        bound_recorded(bounds, id, GenericBound::Add) && bound_recorded(bounds, id, GenericBound::Copy)
    } else if op == "-"@ || op == "darcy.op/sub"@ {
        bound_recorded(bounds, id, GenericBound::Sub) && bound_recorded(bounds, id, GenericBound::Copy)
    } else if op == "*"@ || op == "darcy.op/mul"@ {
        bound_recorded(bounds, id, GenericBound::Mul) && bound_recorded(bounds, id, GenericBound::Copy)
    } else if op == "/"@ || op == "darcy.op/div"@ {
        bound_recorded(bounds, id, GenericBound::Div) && bound_recorded(bounds, id, GenericBound::Copy)
    } else if op == "mod"@ || op == "darcy.op/mod"@ {
        bound_recorded(bounds, id, GenericBound::Copy)
    } else if op == "darcy.op/eq"@ || op == "="@ {
        bound_recorded(bounds, id, GenericBound::PartialEq)
    } else if op == "darcy.op/lt"@ || op == "darcy.op/gt"@ || op == "darcy.op/lte"@ || op == "darcy.op/gte"@
        || op == "<"@ || op == ">"@ || op == "<="@ || op == ">="@ {
        bound_recorded(bounds, id, GenericBound::PartialOrd)
    } else {
        true
    }
}

/// The bounds a call to `op` puts on its arguments' types.
fn bounds_for_call(op: &String, args: &Vec<Expr>, types: &Vec<(SpanKey, Ty)>, bounds: &mut Vec<(u32, Vec<GenericBound>)>)
    requires
        ids_unique(old(bounds)@),
    ensures
        ids_unique(final(bounds)@),
        bounds_grow(old(bounds)@, final(bounds)@),
        forall|i: int, id: u32| 0 <= i < args@.len() && #[trigger] type_mentions(types@, args@[i], id)
            ==> call_bounds_hold(op@, final(bounds)@, id),
        op@ == "darcy.core/clone"@ && args@.len() > 0 ==> forall|id: u32| #[trigger] type_mentions(types@, args@[0], id)
            ==> bound_recorded(final(bounds)@, id, GenericBound::Clone),
{
    proof {
        reveal_strlit("darcy.core/clone");
        reveal_strlit("+");
        reveal_strlit("-");
        reveal_strlit("*");
        reveal_strlit("/");
        reveal_strlit("mod");
        reveal_strlit("=");
        reveal_strlit("<");
        reveal_strlit(">");
        reveal_strlit("<=");
        reveal_strlit(">=");
        reveal_strlit("darcy.op/add");
        reveal_strlit("darcy.op/sub");
        reveal_strlit("darcy.op/mul");
        reveal_strlit("darcy.op/div");
        reveal_strlit("darcy.op/mod");
        reveal_strlit("darcy.op/eq");
        reveal_strlit("darcy.op/lt");
        reveal_strlit("darcy.op/gt");
        reveal_strlit("darcy.op/lte");
        reveal_strlit("darcy.op/gte");
        if op@ == "darcy.core/clone"@ {
            assert(op@[6] == 'c');
            assert("darcy.op/add"@[6] == 'o' && "darcy.op/sub"@[6] == 'o' && "darcy.op/mul"@[6] == 'o' && "darcy.op/div"@[6] == 'o' && "darcy.op/mod"@[6] == 'o' && "darcy.op/eq"@[6] == 'o' && "darcy.op/lt"@[6] == 'o' && "darcy.op/gt"@[6] == 'o' && "darcy.op/lte"@[6] == 'o' && "darcy.op/gte"@[6] == 'o');
            assert(op@.len() == 16);
        }
    }
    if op_is(op, "+", "darcy.op/add") {
        bound_args2(args, types, bounds, GenericBound::Add, GenericBound::Copy);
    } else if op_is(op, "-", "darcy.op/sub") {
        bound_args2(args, types, bounds, GenericBound::Sub, GenericBound::Copy);
    } else if op_is(op, "*", "darcy.op/mul") {
        bound_args2(args, types, bounds, GenericBound::Mul, GenericBound::Copy);
    } else if op_is(op, "/", "darcy.op/div") {
        bound_args2(args, types, bounds, GenericBound::Div, GenericBound::Copy);
    } else if op_is(op, "mod", "darcy.op/mod") {
        bound_args(args, types, bounds, GenericBound::Copy);
    } else if op_is(op, "darcy.op/eq", "=") {
        bound_args(args, types, bounds, GenericBound::PartialEq);
    } else if op_is(op, "darcy.op/lt", "darcy.op/gt") || op_is(op, "darcy.op/lte", "darcy.op/gte")
        || op_is(op, "<", ">") || op_is(op, "<=", ">=") {
        bound_args(args, types, bounds, GenericBound::PartialOrd);
    } else if str_is(op.as_str(), "darcy.core/clone") {
        if args.len() > 0 {
            if let Some(t) = expr_ty(types, &args[0]) {
                add_bounds_for_ty(t, bounds, &GenericBound::Clone);
            }
            assert(forall|id: u32| #[trigger] type_mentions(types@, args@[0], id)
                ==> bound_recorded(bounds@, id, GenericBound::Clone));
        }
    }
}

/// Collects into `bounds` what the operations in `expr` need of the type
/// parameters: arithmetic and comparison traits for operator arguments,
/// `Clone` for cloned and auto-cloned values, the methods `len`,
/// `is_empty` and `push` called on a value of parameter type, and
/// conversion from an integer for an integer literal of parameter type.
pub fn collect_bounds_expr(
    expr: &Expr,
    types: &Vec<(SpanKey, Ty)>,
    auto_clones: &Vec<SpanKey>,
    bounds: &mut Vec<(u32, Vec<GenericBound>)>,
)
    requires
        ids_unique(old(bounds)@),
    ensures
        ids_unique(final(bounds)@),
        bounds_grow(old(bounds)@, final(bounds)@),
        *expr matches Expr::Int(_, sp) ==> match lookup_type_spec(types@, crate::typed::span_key(sp)) {
            Some(Ty::Generic(id)) => has_bound(final(bounds)@, id, GenericBound::FromInt),
            _ => true,
        },
        *expr matches Expr::Var(_, sp) ==> match lookup_type_spec(types@, crate::typed::span_key(sp)) {
            Some(t) => has_key(auto_clones@, crate::typed::span_key(sp)) ==> forall|id: u32| mentions_generic(t, id)
                ==> #[trigger] bound_recorded(final(bounds)@, id, GenericBound::Clone),
            None => true,
        },
        *expr matches Expr::MethodCall { base, method, .. } ==> match lookup_type_spec(types@,
            crate::typed::span_key(crate::ast::spec_expr_span(*base))) {
            Some(Ty::Generic(id)) => (method@ == "len"@ ==> has_bound(final(bounds)@, id, GenericBound::Len))
                && (method@ == "is_empty"@ ==> has_bound(final(bounds)@, id, GenericBound::IsEmpty)),
            _ => true,
        },
    decreases expr, 1nat,
{
    match expr {
        Expr::Var(_, sp) => {
            if contains_key(auto_clones, SpanKey::new(sp)) {
                if let Some(t) = expr_ty(types, expr) {
                    add_bounds_for_ty(t, bounds, &GenericBound::Clone);
                }
            }
        },
        Expr::Ascribe { expr: inner, .. } | Expr::Cast { expr: inner, .. } | Expr::Assign { expr: inner, .. }
        | Expr::Lambda { body: inner, .. } | Expr::Loop { body: inner, .. } | Expr::While { body: inner, .. } => {
            collect_bounds_expr(inner, types, auto_clones, bounds);
        },
        Expr::Call { op, args, .. } => {
            bounds_for_call(op, args, types, bounds);
            collect_all(args, types, auto_clones, bounds);
        },
        Expr::MethodCall { base, method, args, .. } => {
            proof {
                reveal_strlit("len");
                reveal_strlit("is_empty");
                assert("len"@.len() == 3 && "is_empty"@.len() == 8);
            }
            if let Some(base_ty) = expr_ty(types, base) {
                if let Ty::Generic(id) = base_ty {
                    if str_is(method.as_str(), "len") {
                        add_bound(bounds, *id, GenericBound::Len);
                    } else if str_is(method.as_str(), "is_empty") {
                        add_bound(bounds, *id, GenericBound::IsEmpty);
                    } else if str_is(method.as_str(), "push") {
                        if args.len() > 0 {
                            if let Some(arg_ty) = expr_ty(types, &args[0]) {
                                add_bound(bounds, *id, GenericBound::Push(clone_ty(arg_ty)));
                            }
                        }
                    }
                }
            }
            let ghost b1 = bounds@;
            collect_bounds_expr(base, types, auto_clones, bounds);
            let ghost b2 = bounds@;
            collect_all(args, types, auto_clones, bounds);
            proof {
                if let Some(Ty::Generic(id)) = lookup_type_spec(types@, crate::typed::span_key(crate::ast::spec_expr_span(**base))) {
                    if method@ == "len"@ {
                        assert(has_bound(b1, id, GenericBound::Len));
                        assert(has_bound(b2, id, GenericBound::Len));
                    }
                    if method@ == "is_empty"@ {
                        assert(has_bound(b1, id, GenericBound::IsEmpty));
                        assert(has_bound(b2, id, GenericBound::IsEmpty));
                    }
                }
            }
        },
        Expr::Let { bindings, body, .. } => {
            collect_bindings(bindings, types, auto_clones, bounds);
            collect_bounds_expr(body, types, auto_clones, bounds);
        },
        Expr::CallDyn { func, args, .. } => {
            collect_bounds_expr(func, types, auto_clones, bounds);
            collect_all(args, types, auto_clones, bounds);
        },
        Expr::Do { exprs: xs, .. } | Expr::VecLit { elems: xs, .. } | Expr::SetLit { elems: xs, .. } => {
            collect_all(xs, types, auto_clones, bounds);
        },
        Expr::If { cond, then_br, else_br, .. } => {
            collect_bounds_expr(cond, types, auto_clones, bounds);
            collect_bounds_expr(then_br, types, auto_clones, bounds);
            if let Some(e) = else_br {
                collect_bounds_expr(e, types, auto_clones, bounds);
            }
        },
        Expr::For { iter, body, .. } => {
            if let Iterable::Expr(e) = iter {
                collect_bounds_expr(e, types, auto_clones, bounds);
            }
            collect_bounds_expr(body, types, auto_clones, bounds);
        },
        Expr::Match { scrutinee, arms, .. } => {
            collect_bounds_expr(scrutinee, types, auto_clones, bounds);
            collect_arms(arms, types, auto_clones, bounds);
        },
        Expr::MapLit { entries, .. } => {
            collect_entries(entries, types, auto_clones, bounds);
        },
        Expr::Pair { key, val, .. } => {
            collect_bounds_expr(key, types, auto_clones, bounds);
            collect_bounds_expr(val, types, auto_clones, bounds);
        },
        Expr::Break { value, .. } => {
            if let Some(v) = value {
                collect_bounds_expr(v, types, auto_clones, bounds);
            }
        },
        Expr::Int(_, sp) => {
            match lookup_type(types, SpanKey::new(sp)) {
                Some(Ty::Generic(id)) => {
                    add_bound(bounds, *id, GenericBound::FromInt);
                    proof {
                        lemma_lookup_type_spec(types@, crate::typed::span_key(*sp));
                    }
                },
                _ => {
                    proof {
                        lemma_lookup_type_spec(types@, crate::typed::span_key(*sp));
                    }
                },
            }
        },
        _ => {},
    }
}

/// The type recorded last for `k`.
pub open spec fn lookup_type_spec(types: Seq<(SpanKey, Ty)>, k: SpanKey) -> Option<Ty> {
    if exists|i: int| 0 <= i < types.len() && (#[trigger] types[i]).0 == k {
        Some(types[choose|i: int| 0 <= i < types.len() && (#[trigger] types[i]).0 == k
            && forall|j: int| i < j < types.len() ==> (#[trigger] types[j]).0 != k].1)
    } else {
        None
    }
}

proof fn lemma_lookup_type_spec(types: Seq<(SpanKey, Ty)>, k: SpanKey)
    ensures
        forall|i: int| 0 <= i < types.len() && types[i].0 == k
            && (forall|j: int| i < j < types.len() ==> (#[trigger] types[j]).0 != k)
            ==> lookup_type_spec(types, k) == Some(#[trigger] types[i].1),
{
    assert forall|i: int| 0 <= i < types.len() && types[i].0 == k
        && (forall|j: int| i < j < types.len() ==> (#[trigger] types[j]).0 != k)
        implies lookup_type_spec(types, k) == Some(#[trigger] types[i].1) by {
        let c = choose|c: int| 0 <= c < types.len() && (#[trigger] types[c]).0 == k
            && forall|j: int| c < j < types.len() ==> (#[trigger] types[j]).0 != k;
        if c < i {
            assert(types[i].0 != k);
        } else if c > i {
            assert(types[c].0 != k);
        }
    }
}

fn contains_key(keys: &Vec<SpanKey>, k: SpanKey) -> (b: bool)
    ensures
        b == has_key(keys@, k),
{
    let mut i: usize = 0;
    while i < keys.len()
        invariant
            i <= keys@.len(),
            forall|j: int| 0 <= j < i ==> keys@[j] != k,
        decreases keys@.len() - i,
    {
        if keys[i] == k {
            return true;
        }
        i = i + 1;
    }
    false
}

fn collect_all(xs: &Vec<Expr>, types: &Vec<(SpanKey, Ty)>, auto_clones: &Vec<SpanKey>, bounds: &mut Vec<(u32, Vec<GenericBound>)>)
    requires
        ids_unique(old(bounds)@),
    ensures
        ids_unique(final(bounds)@),
        bounds_grow(old(bounds)@, final(bounds)@),
    decreases xs, 0nat,
{
    let ghost b0 = bounds@;
    let mut i: usize = 0;
    while i < xs.len()
        invariant
            i <= xs@.len(),
            ids_unique(bounds@),
            bounds_grow(b0, bounds@),
        decreases xs@.len() - i,
    {
        collect_bounds_expr(&xs[i], types, auto_clones, bounds);
        i = i + 1;
    }
}

fn collect_bindings(bs: &Vec<crate::ast::LetBinding>, types: &Vec<(SpanKey, Ty)>, auto_clones: &Vec<SpanKey>,
    bounds: &mut Vec<(u32, Vec<GenericBound>)>)
    requires
        ids_unique(old(bounds)@),
    ensures
        ids_unique(final(bounds)@),
        bounds_grow(old(bounds)@, final(bounds)@),
    decreases bs, 0nat,
{
    let ghost b0 = bounds@;
    let mut i: usize = 0;
    while i < bs.len()
        invariant
            i <= bs@.len(),
            ids_unique(bounds@),
            bounds_grow(b0, bounds@),
        decreases bs@.len() - i,
    {
        collect_bounds_expr(&bs[i].expr, types, auto_clones, bounds);
        i = i + 1;
    }
}

fn collect_arms(arms: &Vec<crate::ast::MatchArm>, types: &Vec<(SpanKey, Ty)>, auto_clones: &Vec<SpanKey>,
    bounds: &mut Vec<(u32, Vec<GenericBound>)>)
    requires
        ids_unique(old(bounds)@),
    ensures
        ids_unique(final(bounds)@),
        bounds_grow(old(bounds)@, final(bounds)@),
    decreases arms, 0nat,
{
    let ghost b0 = bounds@;
    let mut i: usize = 0;
    while i < arms.len()
        invariant
            i <= arms@.len(),
            ids_unique(bounds@),
            bounds_grow(b0, bounds@),
        decreases arms@.len() - i,
    {
        collect_bounds_expr(&arms[i].body, types, auto_clones, bounds);
        i = i + 1;
    }
}

fn collect_entries(es: &Vec<(Expr, Expr)>, types: &Vec<(SpanKey, Ty)>, auto_clones: &Vec<SpanKey>,
    bounds: &mut Vec<(u32, Vec<GenericBound>)>)
    requires
        ids_unique(old(bounds)@),
    ensures
        ids_unique(final(bounds)@),
        bounds_grow(old(bounds)@, final(bounds)@),
    decreases es, 0nat,
{
    let ghost b0 = bounds@;
    let mut i: usize = 0;
    while i < es.len()
        invariant
            i <= es@.len(),
            ids_unique(bounds@),
            bounds_grow(b0, bounds@),
        decreases es@.len() - i,
    {
        collect_bounds_expr(&es[i].0, types, auto_clones, bounds);
        collect_bounds_expr(&es[i].1, types, auto_clones, bounds);
        i = i + 1;
    }
}

} // verus!
