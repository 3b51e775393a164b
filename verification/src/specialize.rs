//! Specialisation of generic internal functions: a call whose argument
//! types are all known is redirected to a copy of the callee with its type
//! parameters replaced by those types.

use vstd::prelude::*;
use crate::ast::{clone_ty, ty_same, Expr, Iterable, LetBinding, MatchArm, Ty};
use crate::rt::{joined, string_join};
use crate::text::{concat3, copy, decimal, str_is, u64_decimal_chars, string_from_chars};
use crate::typecheck::{has_generic, ty_contains_generic};
use crate::typed::{CastHint, SpanKey, TypedExpr, TypedFn};
use std::sync::Arc;
use vstd::string::StringSliceAdditionalSpecFns;

verus! {

// ---------------------------------------------------------------------------
// Bindings of type parameters

/// The ids of `s` strictly increase.
pub open spec fn ids_increasing(s: Seq<(u32, Ty)>) -> bool {
    forall|i: int, j: int| 0 <= i < j < s.len() ==> (#[trigger] s[i]).0 < (#[trigger] s[j]).0
}

/// Whether `s` binds the type parameter `id`.
pub open spec fn is_bound(s: Seq<(u32, Ty)>, id: u32) -> bool {
    exists|i: int| 0 <= i < s.len() && (#[trigger] s[i]).0 == id
}

/// The type that `s` binds `id` to.
pub open spec fn binding(s: Seq<(u32, Ty)>, id: u32) -> Ty {
    s[choose|i: int| 0 <= i < s.len() && (#[trigger] s[i]).0 == id].1
}

/// With increasing ids, the entry for `id` is the binding.
proof fn lemma_binding_at(s: Seq<(u32, Ty)>, k: int)
    requires
        ids_increasing(s),
        0 <= k < s.len(),
    ensures
        is_bound(s, s[k].0),
        binding(s, s[k].0) == s[k].1,
{
    let id = s[k].0;
    assert(s[k].0 == id);
    let c = choose|i: int| 0 <= i < s.len() && (#[trigger] s[i]).0 == id;
    if c < k {
        assert(s[c].0 < s[k].0);
    } else if c > k {
        assert(s[k].0 < s[c].0);
    }
}

/// Every binding of `a` is a binding of `b`, to the same type.
pub open spec fn extends(b: Seq<(u32, Ty)>, a: Seq<(u32, Ty)>) -> bool {
    forall|id: u32| #[trigger] is_bound(a, id) ==> is_bound(b, id) && binding(b, id) == binding(a, id)
}

/// Every type parameter in `t` is bound by `s`.
pub open spec fn all_bound(t: Ty, s: Seq<(u32, Ty)>) -> bool
    decreases t,
{
    match t {
        Ty::Generic(id) => is_bound(s, id),
        Ty::Vec(x) => all_bound(*x, s),
        Ty::SetOf(x) => all_bound(*x, s),
        Ty::Option(x) => all_bound(*x, s),
        Ty::Result(x, y) => all_bound(*x, s) && all_bound(*y, s),
        Ty::MapOf(_, x, y) => all_bound(*x, s) && all_bound(*y, s),
        Ty::Union(xs) => forall|i: int| 0 <= i < xs@.len() ==> all_bound(#[trigger] xs@[i], s),
        Ty::Named(_) => true,
        Ty::Unknown => true,
    }
}

/// `r` is `t` with each type parameter bound by `s` replaced by its binding.
pub open spec fn substituted(t: Ty, s: Seq<(u32, Ty)>, r: Ty) -> bool
    decreases t,
{
    match t {
        Ty::Generic(id) => if is_bound(s, id) {
            ty_same(r, binding(s, id))
        } else {
            r == Ty::Generic(id)
        },
        Ty::Named(a) => r matches Ty::Named(b) && b@ == a@,
        Ty::Vec(x) => r matches Ty::Vec(y) && substituted(*x, s, *y),
        Ty::SetOf(x) => r matches Ty::SetOf(y) && substituted(*x, s, *y),
        Ty::Option(x) => r matches Ty::Option(y) && substituted(*x, s, *y),
        Ty::Result(x1, x2) => r matches Ty::Result(y1, y2) && substituted(*x1, s, *y1) && substituted(*x2, s, *y2),
        Ty::MapOf(k, x1, x2) => r matches Ty::MapOf(k2, y1, y2) && k2 == k && substituted(*x1, s, *y1)
            && substituted(*x2, s, *y2),
        Ty::Union(xs) => r matches Ty::Union(ys) && ys@.len() == xs@.len() && forall|i: int|
            0 <= i < xs@.len() ==> substituted(#[trigger] xs@[i], s, ys@[i]),
        Ty::Unknown => r == Ty::Unknown,
    }
}

/// A substitution whose parameters are all bound stays the same under a
/// larger set of bindings.
proof fn lemma_substituted_extends(t: Ty, a: Seq<(u32, Ty)>, b: Seq<(u32, Ty)>, r: Ty)
    requires
        substituted(t, a, r),
        all_bound(t, a),
        extends(b, a),
    ensures
        substituted(t, b, r),
        all_bound(t, b),
    decreases t,
{
    match t {
        Ty::Generic(id) => {
            assert(is_bound(a, id));
        },
        Ty::Vec(x) => {
            let y = r->Vec_0;
            lemma_substituted_extends(*x, a, b, *y);
        },
        Ty::SetOf(x) => {
            let y = r->SetOf_0;
            lemma_substituted_extends(*x, a, b, *y);
        },
        Ty::Option(x) => {
            let y = r->Option_0;
            lemma_substituted_extends(*x, a, b, *y);
        },
        Ty::Result(x1, x2) => {
            lemma_substituted_extends(*x1, a, b, *r->Result_0);
            lemma_substituted_extends(*x2, a, b, *r->Result_1);
        },
        Ty::MapOf(_, x1, x2) => {
            lemma_substituted_extends(*x1, a, b, *r->MapOf_1);
            lemma_substituted_extends(*x2, a, b, *r->MapOf_2);
        },
        Ty::Union(xs) => {
            let ys = r->Union_0;
            assert forall|i: int| 0 <= i < xs@.len() implies substituted(#[trigger] xs@[i], b, ys@[i])
                && all_bound(xs@[i], b) by {
                lemma_substituted_extends(xs@[i], a, b, ys@[i]);
            }
        },
        _ => {},
    }
}

/// The position of `id` in `s`, if it is bound.
fn find_binding(s: &Vec<(u32, Ty)>, id: u32) -> (r: Option<usize>)
    requires
        ids_increasing(s@),
    ensures
        r matches Some(k) ==> k < s@.len() && s@[k as int].0 == id && binding(s@, id) == s@[k as int].1,
        r is Some <==> is_bound(s@, id),
{
    let mut k: usize = 0;
    while k < s.len()
        invariant
            ids_increasing(s@),
            k <= s@.len(),
            forall|j: int| 0 <= j < k ==> (#[trigger] s@[j]).0 != id,
        decreases s@.len() - k,
    {
        if s[k].0 == id {
            proof {
                lemma_binding_at(s@, k as int);
            }
            return Some(k);
        }
        k = k + 1;
    }
    None
}

/// `t` with each type parameter bound by `s` replaced by its binding.
pub fn substitute_ty(t: &Ty, s: &Vec<(u32, Ty)>) -> (r: Ty)
    requires
        ids_increasing(s@),
    ensures
        substituted(*t, s@, r),
    decreases t,
{
    match t {
        Ty::Generic(id) => match find_binding(s, *id) {
            Some(k) => clone_ty(&s[k].1),
            None => Ty::Generic(*id),
        },
        Ty::Named(n) => Ty::Named(copy(n)),
        Ty::Vec(x) => Ty::Vec(Box::new(substitute_ty(x, s))),
        Ty::SetOf(x) => Ty::SetOf(Box::new(substitute_ty(x, s))),
        Ty::Option(x) => Ty::Option(Box::new(substitute_ty(x, s))),
        Ty::Result(x, y) => Ty::Result(Box::new(substitute_ty(x, s)), Box::new(substitute_ty(y, s))),
        Ty::MapOf(k, x, y) => Ty::MapOf(*k, Box::new(substitute_ty(x, s)), Box::new(substitute_ty(y, s))),
        Ty::Union(xs) => Ty::Union(substitute_tys(xs, s)),
        Ty::Unknown => Ty::Unknown,
    }
}

fn substitute_tys(xs: &Vec<Ty>, s: &Vec<(u32, Ty)>) -> (out: Vec<Ty>)
    requires
        ids_increasing(s@),
    ensures
        out@.len() == xs@.len(),
        forall|j: int| 0 <= j < xs@.len() ==> substituted(#[trigger] xs@[j], s@, out@[j]),
    decreases xs,
{
    let mut out: Vec<Ty> = Vec::new();
    let mut i: usize = 0;
    while i < xs.len()
        invariant
            ids_increasing(s@),
            i <= xs@.len(),
            out@.len() == i,
            forall|j: int| 0 <= j < i ==> substituted(#[trigger] xs@[j], s@, out@[j]),
        decreases xs@.len() - i,
    {
        out.push(substitute_ty(&xs[i], s));
        i = i + 1;
    }
    out
}

/// Binds `id` to `t` in `s`, keeping the ids in increasing order.
fn insert_binding(s: &mut Vec<(u32, Ty)>, id: u32, t: Ty)
    requires
        ids_increasing(old(s)@),
        !is_bound(old(s)@, id),
    ensures
        ids_increasing(final(s)@),
        extends(final(s)@, old(s)@),
        is_bound(final(s)@, id),
        binding(final(s)@, id) == t,
        final(s)@.len() == old(s)@.len() + 1,
{
    let mut pos: usize = 0;
    while pos < s.len() && s[pos].0 < id
        invariant
            pos <= s@.len(),
            forall|j: int| 0 <= j < pos ==> (#[trigger] s@[j]).0 < id,
        decreases s@.len() - pos,
    {
        pos = pos + 1;
    }
    let ghost before = s@;
    proof {
        if pos < before.len() {
            assert(before[pos as int].0 != id);
        }
    }
    s.insert(pos, (id, t));
    proof {
        let after = s@;
        assert(after =~= before.subrange(0, pos as int).push((id, t)) + before.subrange(pos as int, before.len() as int));
        assert forall|i: int, j: int| 0 <= i < j < after.len() implies (#[trigger] after[i]).0 < (#[trigger] after[j]).0 by {
            if j < pos {
            } else if j == pos {
                assert(before[i].0 < id);
            } else if i < pos {
                assert(after[j] == before[j - 1]);
                assert(before[i].0 < before[j - 1].0);
            } else if i == pos {
                assert(after[j] == before[j - 1]);
                assert(before[pos as int].0 <= before[j - 1].0) by {
                    if pos < j - 1 {
                        assert(before[pos as int].0 < before[j - 1].0);
                    }
                }
                assert(before[pos as int].0 > id) by {
                    assert(!(before[pos as int].0 < id));
                    assert(before[pos as int].0 != id);
                }
            } else {
                assert(after[i] == before[i - 1]);
                assert(after[j] == before[j - 1]);
            }
        }
        assert(after[pos as int] == (id, t));
        lemma_binding_at(after, pos as int);
        assert forall|x: u32| #[trigger] is_bound(before, x) implies is_bound(after, x) && binding(after, x) == binding(before, x) by {
            let k = choose|k: int| 0 <= k < before.len() && (#[trigger] before[k]).0 == x;
            lemma_binding_at(before, k);
            let k2 = if k < pos { k } else { k + 1 };
            assert(after[k2] == before[k]);
            lemma_binding_at(after, k2);
        }
    }
}

/// Matches the pattern `pat` against `actual`, binding the pattern's type
/// parameters in `s`; a parameter already bound must be bound to the same
/// type. On success substituting the bindings in `pat` gives `actual`.
pub fn match_ty_pattern(pat: &Ty, actual: &Ty, s: &mut Vec<(u32, Ty)>) -> (r: bool)
    requires
        ids_increasing(old(s)@),
    ensures
        ids_increasing(final(s)@),
        extends(final(s)@, old(s)@),
        r ==> substituted(*pat, final(s)@, *actual) && all_bound(*pat, final(s)@),
    decreases pat,
{
    match (pat, actual) {
        (Ty::Generic(id), _) => match find_binding(s, *id) {
            Some(k) => {
                let same = crate::ast::ty_eq(&s[k].1, actual);
                proof {
                    crate::ast::lemma_ty_same_symmetric(s@[k as int].1, *actual);
                }
                same
            },
            None => {
                let c = clone_ty(actual);
                proof {
                    crate::ast::lemma_ty_same_symmetric(c, *actual);
                }
                insert_binding(s, *id, c);
                true
            },
        },
        (Ty::Named(a), Ty::Named(b)) => str_is(b.as_str(), a.as_str()),
        (Ty::Vec(a), Ty::Vec(b)) => match_ty_pattern(a, b, s),
        (Ty::SetOf(a), Ty::SetOf(b)) => match_ty_pattern(a, b, s),
        (Ty::Option(a), Ty::Option(b)) => match_ty_pattern(a, b, s),
        (Ty::Result(a1, a2), Ty::Result(b1, b2)) => {
            let ghost s0 = s@;
            if !match_ty_pattern(a1, b1, s) {
                return false;
            }
            let ghost s1 = s@;
            if !match_ty_pattern(a2, b2, s) {
                return false;
            }
            proof {
                lemma_substituted_extends(**a1, s1, s@, **b1);
            }
            true
        },
        (Ty::MapOf(ka, a1, a2), Ty::MapOf(kb, b1, b2)) => {
            if *ka != *kb {
                return false;
            }
            let ghost s0 = s@;
            if !match_ty_pattern(a1, b1, s) {
                return false;
            }
            let ghost s1 = s@;
            if !match_ty_pattern(a2, b2, s) {
                return false;
            }
            proof {
                lemma_substituted_extends(**a1, s1, s@, **b1);
            }
            true
        },
        _ => false,
    }
}

// ---------------------------------------------------------------------------
// Names of specialisations

/// The 64-bit FNV-1a hash of `bs`.
pub open spec fn fnv1a_spec(bs: Seq<u8>) -> u64
    decreases bs.len(),
{
    if bs.len() == 0 {
        0xcbf29ce484222325u64
    } else {
        vstd::wrapping::u64_specs::wrapping_mul(
            fnv1a_spec(bs.drop_last()) ^ (bs.last() as u64),
            0x100000001b3u64,
        )
    }
}

/// The 64-bit FNV-1a hash of the UTF-8 bytes of `s`.
pub fn fnv1a_64(s: &str) -> (h: u64)
    ensures
        h == fnv1a_spec(s.spec_bytes()),
{
    let bytes = s.as_bytes();
    let mut hash: u64 = 0xcbf29ce484222325u64;
    let mut i: usize = 0;
    while i < bytes.len()
        invariant
            i <= bytes@.len(),
            bytes@ == s.spec_bytes(),
            hash == fnv1a_spec(bytes@.subrange(0, i as int)),
        decreases bytes@.len() - i,
    {
        let b = bytes[i];
        proof {
            let next = bytes@.subrange(0, i + 1);
            assert(next.drop_last() =~= bytes@.subrange(0, i as int));
            assert(next.last() == b);
        }
        hash = (hash ^ (b as u64)).wrapping_mul(0x100000001b3u64);
        i = i + 1;
    }
    proof {
        assert(bytes@.subrange(0, bytes@.len() as int) =~= bytes@);
    }
    hash
}

/// The lowercase hexadecimal digit for `d < 16`.
pub open spec fn hex_digit(d: nat) -> char {
    if d < 10 { crate::text::digit_char(d) }
    else if d == 10 { 'a' }
    else if d == 11 { 'b' }
    else if d == 12 { 'c' }
    else if d == 13 { 'd' }
    else if d == 14 { 'e' }
    else { 'f' }
}

/// The lowercase hexadecimal rendering of `n` without leading zeros
/// ("0" for zero), as `{:x}` formats it.
pub open spec fn hex(n: nat) -> Seq<char>
    decreases n,
{
    if n < 16 {
        seq![hex_digit(n)]
    } else {
        hex(n / 16).push(hex_digit(n % 16))
    }
}

fn hex_digit_char(d: u64) -> (c: char)
    requires
        d < 16,
    ensures
        c == hex_digit(d as nat),
{
    if d < 10 {
        let v = u64_decimal_chars(d);
        v[0]
    } else if d == 10 { 'a' }
    else if d == 11 { 'b' }
    else if d == 12 { 'c' }
    else if d == 13 { 'd' }
    else if d == 14 { 'e' }
    else { 'f' }
}

fn hex_chars(n: u64) -> (v: Vec<char>)
    ensures
        v@ == hex(n as nat),
    decreases n,
{
    if n < 16 {
        let mut v = Vec::new();
        v.push(hex_digit_char(n));
        assert(v@ =~= hex(n as nat));
        v
    } else {
        let mut v = hex_chars(n / 16);
        v.push(hex_digit_char(n % 16));
        v
    }
}

/// The lowercase hexadecimal string of `n`.
pub fn hex_string(n: u64) -> (s: String)
    ensures
        s@ == hex(n as nat),
{
    let v = hex_chars(n);
    string_from_chars(v.as_slice())
}

/// One binding rendered as `T<id>=<rust type>`.
pub open spec fn binding_text(e: (u32, Ty)) -> Seq<char> {
    "T"@ + decimal(e.0 as nat) + "="@ + crate::ast::ty_rust_spec(e.1)
}

/// The key of a set of bindings: each binding rendered, joined by commas.
pub open spec fn bindings_key(s: Seq<(u32, Ty)>) -> Seq<char> {
    joined(s.map_values(|e: (u32, Ty)| binding_text(e)), ","@)
}

/// The key text of the bindings `s`, in their order.
pub fn bindings_key_string(s: &Vec<(u32, Ty)>) -> (r: String)
    ensures
        r@ == bindings_key(s@),
{
    let mut parts: Vec<String> = Vec::new();
    let mut i: usize = 0;
    while i < s.len()
        invariant
            i <= s@.len(),
            parts@.len() == i,
            forall|j: int| 0 <= j < i ==> (#[trigger] parts@[j])@ == binding_text(s@[j]),
        decreases s@.len() - i,
    {
        let id = crate::text::usize_to_string(s[i].0 as usize);
        let ty = s[i].1.rust();
        let mut part = concat3("T", id.as_str(), "=");
        part.append(ty.as_str());
        proof {
            reveal_strlit("");
        }
        parts.push(part);
        i = i + 1;
    }
    let ghost views = parts@.map_values(|x: String| x@);
    proof {
        assert(views =~= s@.map_values(|e: (u32, Ty)| binding_text(e)));
    }
    let sep = String::from_str(",");
    string_join(Arc::new(parts), &sep)
}

// ---------------------------------------------------------------------------
// Typed functions

/// The last type recorded for `key` in `types`.
pub fn lookup_type<'a>(types: &'a Vec<(SpanKey, Ty)>, key: SpanKey) -> (r: Option<&'a Ty>)
    ensures
        r matches Some(t) ==> exists|i: int| 0 <= i < types@.len() && types@[i].0 == key
            && types@[i].1 == *t && forall|j: int| i < j < types@.len() ==> (#[trigger] types@[j]).0 != key,
        r is None ==> forall|i: int| 0 <= i < types@.len() ==> (#[trigger] types@[i]).0 != key,
{
    let mut i: usize = types.len();
    while i > 0
        invariant
            i <= types@.len(),
            forall|j: int| i <= j < types@.len() ==> (#[trigger] types@[j]).0 != key,
        decreases i,
    {
        if types[i - 1].0 == key {
            return Some(&types[i - 1].1);
        }
        i = i - 1;
    }
    None
}

/// The type recorded for the parameter `name` of `f`.
fn param_ty<'a>(f: &'a TypedFn, name: &String) -> (r: Option<&'a Ty>)
    ensures
        r matches Some(t) ==> exists|i: int| 0 <= i < f.param_tys@.len() && f.param_tys@[i].0@ == name@
            && f.param_tys@[i].1 == *t,
{
    let mut i: usize = 0;
    while i < f.param_tys.len()
        invariant
            i <= f.param_tys@.len(),
        decreases f.param_tys@.len() - i,
    {
        if f.param_tys[i].0 == *name {
            return Some(&f.param_tys[i].1);
        }
        i = i + 1;
    }
    None
}

fn clone_named_tys(v: &Vec<(String, Ty)>) -> (out: Vec<(String, Ty)>)
    ensures
        out@.len() == v@.len(),
        forall|i: int| 0 <= i < v@.len() ==> (#[trigger] out@[i]).0@ == v@[i].0@ && ty_same(out@[i].1, v@[i].1),
{
    let mut out: Vec<(String, Ty)> = Vec::new();
    let mut i: usize = 0;
    while i < v.len()
        invariant
            i <= v@.len(),
            out@.len() == i,
            forall|j: int| 0 <= j < i ==> (#[trigger] out@[j]).0@ == v@[j].0@ && ty_same(out@[j].1, v@[j].1),
        decreases v@.len() - i,
    {
        out.push((copy(&v[i].0), clone_ty(&v[i].1)));
        i = i + 1;
    }
    out
}

fn clone_span_tys(v: &Vec<(SpanKey, Ty)>) -> (out: Vec<(SpanKey, Ty)>)
    ensures
        out@.len() == v@.len(),
        forall|i: int| 0 <= i < v@.len() ==> (#[trigger] out@[i]).0 == v@[i].0 && ty_same(out@[i].1, v@[i].1),
{
    let mut out: Vec<(SpanKey, Ty)> = Vec::new();
    let mut i: usize = 0;
    while i < v.len()
        invariant
            i <= v@.len(),
            out@.len() == i,
            forall|j: int| 0 <= j < i ==> (#[trigger] out@[j]).0 == v@[j].0 && ty_same(out@[j].1, v@[j].1),
        decreases v@.len() - i,
    {
        out.push((v[i].0, clone_ty(&v[i].1)));
        i = i + 1;
    }
    out
}

fn clone_strings(v: &Vec<String>) -> (out: Vec<String>)
    ensures
        out@.len() == v@.len(),
        forall|i: int| 0 <= i < v@.len() ==> (#[trigger] out@[i])@ == v@[i]@,
{
    let mut out: Vec<String> = Vec::new();
    let mut i: usize = 0;
    while i < v.len()
        invariant
            i <= v@.len(),
            out@.len() == i,
            forall|j: int| 0 <= j < i ==> (#[trigger] out@[j])@ == v@[j]@,
        decreases v@.len() - i,
    {
        out.push(copy(&v[i]));
        i = i + 1;
    }
    out
}

/// A copy of a typed function.
pub fn clone_typed_fn(f: &TypedFn) -> (r: TypedFn)
    ensures
        r.def.name@ == f.def.name@,
        r.def.exported == f.def.exported,
        r.def.extern_ == f.def.extern_,
        r.param_tys@.len() == f.param_tys@.len(),
        forall|i: int| 0 <= i < f.param_tys@.len() ==> (#[trigger] r.param_tys@[i]).0@ == f.param_tys@[i].0@
            && ty_same(r.param_tys@[i].1, f.param_tys@[i].1),
        ty_same(r.body.ty, f.body.ty),
{
    let mut def = f.def.clone();
    def.name = copy(&f.def.name);
    def.exported = f.def.exported;
    def.extern_ = f.def.extern_;
    let mut modes: Vec<(String, crate::typed::ParamMode)> = Vec::new();
    let mut i: usize = 0;
    while i < f.param_modes.len()
        invariant
            i <= f.param_modes@.len(),
        decreases f.param_modes@.len() - i,
    {
        modes.push((copy(&f.param_modes[i].0), f.param_modes[i].1));
        i = i + 1;
    }
    TypedFn {
        def,
        param_tys: clone_named_tys(&f.param_tys),
        param_modes: modes,
        generic_bounds: f.generic_bounds.clone(),
        body: TypedExpr {
            expr: crate::ast::clone_expr(&f.body.expr),
            ty: clone_ty(&f.body.ty),
            casts: f.body.casts.clone(),
            types: clone_span_tys(&f.body.types),
        },
        mutated: clone_strings(&f.mutated),
    }
}

/// `f` renamed to `new_name`, made internal, with the bindings `s`
/// substituted in its parameter types, its type and the types of its
/// subexpressions and casts, and with no generic bounds.
pub fn substitute_typed_fn(f: TypedFn, new_name: &String, s: &Vec<(u32, Ty)>) -> (r: TypedFn)
    requires
        ids_increasing(s@),
    ensures
        r.def.name@ == new_name@,
        r.def.rust_name@ == new_name@,
        !r.def.exported,
        !r.def.specialize,
        r.def.extern_ == f.def.extern_,
        r.param_tys@.len() == f.param_tys@.len(),
        forall|i: int| 0 <= i < f.param_tys@.len() ==> (#[trigger] r.param_tys@[i]).0@ == f.param_tys@[i].0@
            && substituted(f.param_tys@[i].1, s@, r.param_tys@[i].1),
        substituted(f.body.ty, s@, r.body.ty),
        r.body.types@.len() == f.body.types@.len(),
        forall|i: int| 0 <= i < f.body.types@.len() ==> (#[trigger] r.body.types@[i]).0 == f.body.types@[i].0
            && substituted(f.body.types@[i].1, s@, r.body.types@[i].1),
        r.generic_bounds@.len() == 0,
{
    let TypedFn { def, param_tys, param_modes, generic_bounds: _, body, mutated } = f;
    let mut def = def;
    def.name = copy(new_name);
    def.rust_name = copy(new_name);
    def.exported = false;
    def.specialize = false;
    let mut params: Vec<(String, Ty)> = Vec::new();
    let mut i: usize = 0;
    while i < param_tys.len()
        invariant
            ids_increasing(s@),
            i <= param_tys@.len(),
            params@.len() == i,
            forall|j: int| 0 <= j < i ==> (#[trigger] params@[j]).0@ == param_tys@[j].0@
                && substituted(param_tys@[j].1, s@, params@[j].1),
        decreases param_tys@.len() - i,
    {
        params.push((copy(&param_tys[i].0), substitute_ty(&param_tys[i].1, s)));
        i = i + 1;
    }
    let TypedExpr { expr, ty, casts, types } = body;
    let mut new_types: Vec<(SpanKey, Ty)> = Vec::new();
    let mut i: usize = 0;
    while i < types.len()
        invariant
            ids_increasing(s@),
            i <= types@.len(),
            new_types@.len() == i,
            forall|j: int| 0 <= j < i ==> (#[trigger] new_types@[j]).0 == types@[j].0
                && substituted(types@[j].1, s@, new_types@[j].1),
        decreases types@.len() - i,
    {
        new_types.push((types[i].0, substitute_ty(&types[i].1, s)));
        i = i + 1;
    }
    let mut new_casts: Vec<CastHint> = Vec::new();
    let mut i: usize = 0;
    while i < casts.len()
        invariant
            ids_increasing(s@),
            i <= casts@.len(),
        decreases casts@.len() - i,
    {
        new_casts.push(CastHint { span: casts[i].span, target: substitute_ty(&casts[i].target, s) });
        i = i + 1;
    }
    TypedFn {
        def,
        param_tys: params,
        param_modes,
        generic_bounds: Vec::new(),
        body: TypedExpr { expr, ty: substitute_ty(&ty, s), casts: new_casts, types: new_types },
        mutated,
    }
}

// ---------------------------------------------------------------------------
// Rewriting calls

/// The bookkeeping of a specialisation pass.
pub struct SpecState {
    /// Specialisations made so far: callee name, bindings key, new name.
    pub names: Vec<(String, String, String)>,
    /// Names of the specialised functions generated so far.
    pub generated: Vec<String>,
    /// Specialised functions generated and not yet added to the program.
    pub pending: Vec<TypedFn>,
    /// Generic functions that some call was redirected away from.
    pub to_remove: Vec<String>,
}

impl SpecState {
    /// A pass that has made no specialisation yet.
    pub fn new() -> (st: SpecState)
        ensures
            st.names@.len() == 0,
            st.generated@.len() == 0,
            st.pending@.len() == 0,
            st.to_remove@.len() == 0,
    {
        SpecState { names: Vec::new(), generated: Vec::new(), pending: Vec::new(), to_remove: Vec::new() }
    }
}

/// The pass only records: nothing it recorded is forgotten.
pub open spec fn state_grows(a: SpecState, b: SpecState) -> bool {
    &&& a.names@.len() <= b.names@.len()
    &&& a.generated@.len() <= b.generated@.len()
    &&& a.to_remove@.len() <= b.to_remove@.len()
    &&& forall|i: int| 0 <= i < a.names@.len() ==> #[trigger] b.names@[i] == a.names@[i]
    &&& forall|i: int| 0 <= i < a.generated@.len() ==> #[trigger] b.generated@[i] == a.generated@[i]
    &&& forall|i: int| 0 <= i < a.to_remove@.len() ==> #[trigger] b.to_remove@[i] == a.to_remove@[i]
}

/// Whether `f` is generic and internal, so that calls to it can be
/// specialised.
pub open spec fn is_candidate(f: TypedFn) -> bool {
    !f.def.exported && !f.def.extern_ && ((exists|i: int| 0 <= i < f.param_tys@.len()
        && has_generic(#[trigger] f.param_tys@[i].1)) || has_generic(f.body.ty))
}

fn decide_candidate(f: &TypedFn) -> (b: bool)
    ensures
        b == is_candidate(*f),
{
    if f.def.exported || f.def.extern_ {
        return false;
    }
    let mut i: usize = 0;
    while i < f.param_tys.len()
        invariant
            !f.def.exported && !f.def.extern_,
            i <= f.param_tys@.len(),
            forall|j: int| 0 <= j < i ==> !has_generic(#[trigger] f.param_tys@[j].1),
        decreases f.param_tys@.len() - i,
    {
        if ty_contains_generic(&f.param_tys[i].1) {
            return true;
        }
        i = i + 1;
    }
    ty_contains_generic(&f.body.ty)
}

/// The last candidate named `name`.
fn find_candidate(candidates: &Vec<TypedFn>, name: &String) -> (r: Option<usize>)
    ensures
        r matches Some(i) ==> i < candidates@.len() && candidates@[i as int].def.name@ == name@,
        r is None ==> !has_candidate(candidates@, name@),
{
    let mut i: usize = candidates.len();
    while i > 0
        invariant
            i <= candidates@.len(),
            forall|j: int| i <= j < candidates@.len() ==> (#[trigger] candidates@[j]).def.name@ != name@,
        decreases i,
    {
        if candidates[i - 1].def.name == *name {
            return Some(i - 1);
        }
        i = i - 1;
    }
    None
}

/// Among `candidates` is one named `name`.
pub open spec fn has_candidate(candidates: Seq<TypedFn>, name: Seq<char>) -> bool {
    exists|i: int| 0 <= i < candidates.len() && (#[trigger] candidates[i]).def.name@ == name
}

/// The name already given to the specialisation of `name` for `key`.
fn find_spec_name(names: &Vec<(String, String, String)>, name: &String, key: &String) -> (r: Option<String>)
    ensures
        r matches Some(n) ==> exists|i: int| 0 <= i < names@.len() && (#[trigger] names@[i]).0@ == name@
            && names@[i].1@ == key@ && names@[i].2@ == n@,
{
    let mut i: usize = 0;
    while i < names.len()
        invariant
            i <= names@.len(),
        decreases names@.len() - i,
    {
        if names[i].0 == *name && names[i].1 == *key {
            return Some(copy(&names[i].2));
        }
        i = i + 1;
    }
    None
}

/// The bindings under which `template`'s parameter types give the known,
/// non-generic types of `args`; `None` when a type is unknown or generic,
/// a parameter does not match, or nothing gets bound.
fn call_bindings(template: &TypedFn, args: &Vec<Expr>, types: &Vec<(SpanKey, Ty)>) -> (r: Option<Vec<(u32, Ty)>>)
    ensures
        r matches Some(s) ==> ids_increasing(s@) && s@.len() > 0,
{
    let mut actuals: Vec<Ty> = Vec::new();
    let mut i: usize = 0;
    while i < args.len()
        invariant
            i <= args@.len(),
            actuals@.len() == i,
        decreases args@.len() - i,
    {
        let key = SpanKey::new(&args[i].span());
        match lookup_type(types, key) {
            Some(t) => {
                if ty_contains_generic(t) {
                    return None;
                }
                actuals.push(clone_ty(t));
            },
            None => return None,
        }
        i = i + 1;
    }
    let mut subst: Vec<(u32, Ty)> = Vec::new();
    let mut idx: usize = 0;
    while idx < template.def.params.len()
        invariant
            ids_increasing(subst@),
        decreases template.def.params@.len() - idx,
    {
        let pat = match param_ty(template, &template.def.params[idx].rust_name) {
            Some(t) => t,
            None => return None,
        };
        if idx >= actuals.len() {
            return None;
        }
        if !match_ty_pattern(pat, &actuals[idx], &mut subst) {
            return None;
        }
        idx = idx + 1;
    }
    if subst.len() == 0 {
        return None;
    }
    Some(subst)
}

/// Records the specialisation of `template` (called as `op`) under the
/// bindings `subst` and returns its name: the name given before to the same
/// callee and bindings, or `<rust name>_spec_<hex hash of the key>`.
fn record_specialisation(op: &String, template: &TypedFn, subst: &Vec<(u32, Ty)>, st: &mut SpecState) -> (r: String)
    requires
        ids_increasing(subst@),
    ensures
        state_grows(*old(st), *final(st)),
        exists|i: int| 0 <= i < final(st).names@.len() && (#[trigger] final(st).names@[i]).0@ == op@
            && final(st).names@[i].2@ == r@,
{
    let key = bindings_key_string(subst);
    let ghost k: int;
    let spec_name = match find_spec_name(&st.names, op, &key) {
        Some(n) => {
            proof {
                k = choose|i: int| 0 <= i < st.names@.len() && (#[trigger] st.names@[i]).0@ == op@
                    && st.names@[i].1@ == key@ && st.names@[i].2@ == n@;
            }
            n
        },
        None => {
            let hash = hex_string(fnv1a_64(key.as_str()));
            let n = concat3(template.def.rust_name.as_str(), "_spec_", hash.as_str());
            st.names.push((copy(op), copy(&key), copy(&n)));
            proof {
                k = st.names@.len() - 1;
            }
            n
        },
    };
    assert(0 <= k < st.names@.len() && st.names@[k].0@ == op@ && st.names@[k].2@ == spec_name@);
    if !crate::typecheck::contains_string(&st.to_remove, op) {
        st.to_remove.push(copy(op));
    }
    if crate::typecheck::contains_string(&st.generated, &spec_name) {
        return spec_name;
    }
    let spec_fn = make_specialisation(template, &spec_name, subst);
    st.generated.push(copy(&spec_name));
    st.pending.push(spec_fn);
    assert(st.names@[k].0@ == op@);
    spec_name
}

/// The specialised copy of `template` named `name` under `subst`.
fn make_specialisation(template: &TypedFn, name: &String, subst: &Vec<(u32, Ty)>) -> (r: TypedFn)
    requires
        ids_increasing(subst@),
    ensures
        r.def.name@ == name@,
{
    substitute_typed_fn(clone_typed_fn(template), name, subst)
}

/// The callee to use for a call of `op` on `args`: a specialisation of a
/// generic candidate named `op` when the arguments' types bind its type
/// parameters (see `call_bindings`), else `op` itself.
fn specialise_call(op: &String, args: &Vec<Expr>, types: &Vec<(SpanKey, Ty)>, candidates: &Vec<TypedFn>,
    st: &mut SpecState) -> (r: String)
    ensures
        state_grows(*old(st), *final(st)),
        r@ != op@ ==> exists|i: int| 0 <= i < final(st).names@.len() && (#[trigger] final(st).names@[i]).0@ == op@
            && final(st).names@[i].2@ == r@,
        !has_candidate(candidates@, op@) ==> r@ == op@ && *final(st) == *old(st),
{
    let ci = match find_candidate(candidates, op) {
        Some(i) => i,
        None => return copy(op),
    };
    let template = &candidates[ci];
    if template.def.exported || template.def.extern_ {
        return copy(op);
    }
    match call_bindings(template, args, types) {
        Some(subst) => record_specialisation(op, template, &subst, st),
        None => copy(op),
    }
}

/// `expr` with its calls to generic candidates redirected to
/// specialisations, as `specialise_call` decides for each call.
pub fn rewrite_calls(expr: &Expr, types: &Vec<(SpanKey, Ty)>, candidates: &Vec<TypedFn>, st: &mut SpecState) -> (r: Expr)
    ensures
        state_grows(*old(st), *final(st)),
        *expr matches Expr::Call { op, args, span } ==> (r matches Expr::Call { op: o2, args: a2, span: s2 }
            && s2 == span && a2@.len() == args@.len()
            && (o2@ != op@ ==> exists|i: int| 0 <= i < final(st).names@.len()
                && (#[trigger] final(st).names@[i]).0@ == op@ && final(st).names@[i].2@ == o2@)
            && (!has_candidate(candidates@, op@) ==> o2@ == op@)),
    decreases expr,
{
    match expr {
        Expr::Call { op, args, span } => {
            let new_args = rewrite_all(args, types, candidates, st);
            let ghost mid = *st;
            let new_op = specialise_call(op, args, types, candidates, st);
            Expr::Call { op: new_op, args: new_args, span: *span }
        },
        Expr::Ascribe { expr: inner, ann, span } => Expr::Ascribe {
            expr: Box::new(rewrite_calls(inner, types, candidates, st)),
            ann: clone_ty(ann),
            span: *span,
        },
        Expr::Cast { expr: inner, ann, span } => Expr::Cast {
            expr: Box::new(rewrite_calls(inner, types, candidates, st)),
            ann: clone_ty(ann),
            span: *span,
        },
        Expr::Let { bindings, body, span } => {
            let bs = rewrite_bindings(bindings, types, candidates, st);
            let b = rewrite_calls(body, types, candidates, st);
            Expr::Let { bindings: bs, body: Box::new(b), span: *span }
        },
        Expr::Lambda { params, body, span } => {
            let b = rewrite_calls(body, types, candidates, st);
            Expr::Lambda { params: params.clone(), body: Box::new(b), span: *span }
        },
        Expr::CallDyn { func, args, span } => {
            let f = rewrite_calls(func, types, candidates, st);
            let a = rewrite_all(args, types, candidates, st);
            Expr::CallDyn { func: Box::new(f), args: a, span: *span }
        },
        Expr::MethodCall { base, method, args, span } => {
            let b = rewrite_calls(base, types, candidates, st);
            let a = rewrite_all(args, types, candidates, st);
            Expr::MethodCall { base: Box::new(b), method: copy(method), args: a, span: *span }
        },
        Expr::Do { exprs, span } => Expr::Do { exprs: rewrite_all(exprs, types, candidates, st), span: *span },
        Expr::If { cond, then_br, else_br, span } => {
            let c = rewrite_calls(cond, types, candidates, st);
            let t = rewrite_calls(then_br, types, candidates, st);
            let e = match else_br {
                Some(b) => Some(Box::new(rewrite_calls(b, types, candidates, st))),
                None => None,
            };
            Expr::If { cond: Box::new(c), then_br: Box::new(t), else_br: e, span: *span }
        },
        Expr::Loop { body, span } => Expr::Loop { body: Box::new(rewrite_calls(body, types, candidates, st)), span: *span },
        Expr::While { cond, body, span } => Expr::While {
            cond: Box::new(crate::ast::clone_expr(cond)),
            body: Box::new(rewrite_calls(body, types, candidates, st)),
            span: *span,
        },
        Expr::For { var, iter, body, span } => {
            let it = match iter {
                Iterable::Expr(e) => Iterable::Expr(Box::new(rewrite_calls(e, types, candidates, st))),
                Iterable::Range(r) => Iterable::Range(crate::ast::clone_range(r)),
            };
            let b = rewrite_calls(body, types, candidates, st);
            Expr::For { var: copy(var), iter: it, body: Box::new(b), span: *span }
        },
        Expr::Match { scrutinee, arms, span } => {
            let sc = rewrite_calls(scrutinee, types, candidates, st);
            let a = rewrite_arms(arms, types, candidates, st);
            Expr::Match { scrutinee: Box::new(sc), arms: a, span: *span }
        },
        Expr::VecLit { elems, span, ann } => Expr::VecLit {
            elems: rewrite_all(elems, types, candidates, st),
            span: *span,
            ann: match ann { Some(t) => Some(clone_ty(t)), None => None },
        },
        Expr::SetLit { elems, span, ann } => Expr::SetLit {
            elems: rewrite_all(elems, types, candidates, st),
            span: *span,
            ann: match ann { Some(t) => Some(clone_ty(t)), None => None },
        },
        Expr::MapLit { kind, entries, span, ann } => Expr::MapLit {
            kind: *kind,
            entries: rewrite_entries(entries, types, candidates, st),
            span: *span,
            ann: match ann { Some((k, v)) => Some((clone_ty(k), clone_ty(v))), None => None },
        },
        Expr::Pair { key, val, span } => {
            let k = rewrite_calls(key, types, candidates, st);
            let v = rewrite_calls(val, types, candidates, st);
            Expr::Pair { key: Box::new(k), val: Box::new(v), span: *span }
        },
        Expr::Break { value, span } => Expr::Break {
            value: match value {
                Some(v) => Some(Box::new(rewrite_calls(v, types, candidates, st))),
                None => None,
            },
            span: *span,
        },
        Expr::Assign { name, expr: inner, span } => Expr::Assign {
            name: copy(name),
            expr: Box::new(rewrite_calls(inner, types, candidates, st)),
            span: *span,
        },
        Expr::Field { base, field, span } => Expr::Field {
            base: Box::new(rewrite_calls(base, types, candidates, st)),
            field: copy(field),
            span: *span,
        },
        _ => crate::ast::clone_expr(expr),
    }
}

fn rewrite_all(xs: &Vec<Expr>, types: &Vec<(SpanKey, Ty)>, candidates: &Vec<TypedFn>, st: &mut SpecState) -> (out: Vec<Expr>)
    ensures
        state_grows(*old(st), *final(st)),
        out@.len() == xs@.len(),
    decreases xs,
{
    let mut out: Vec<Expr> = Vec::new();
    let mut i: usize = 0;
    while i < xs.len()
        invariant
            i <= xs@.len(),
            out@.len() == i,
            state_grows(*old(st), *st),
        decreases xs@.len() - i,
    {
        out.push(rewrite_calls(&xs[i], types, candidates, st));
        i = i + 1;
    }
    out
}

fn rewrite_bindings(bs: &Vec<LetBinding>, types: &Vec<(SpanKey, Ty)>, candidates: &Vec<TypedFn>, st: &mut SpecState) -> (out: Vec<LetBinding>)
    ensures
        state_grows(*old(st), *final(st)),
        out@.len() == bs@.len(),
    decreases bs,
{
    let mut out: Vec<LetBinding> = Vec::new();
    let mut i: usize = 0;
    while i < bs.len()
        invariant
            i <= bs@.len(),
            out@.len() == i,
            state_grows(*old(st), *st),
        decreases bs@.len() - i,
    {
        let b = &bs[i];
        let e = rewrite_calls(&b.expr, types, candidates, st);
        out.push(LetBinding {
            name: copy(&b.name),
            rust_name: copy(&b.rust_name),
            ann: match &b.ann { Some(t) => Some(clone_ty(t)), None => None },
            expr: e,
            span: b.span,
        });
        i = i + 1;
    }
    out
}

fn rewrite_arms(arms: &Vec<MatchArm>, types: &Vec<(SpanKey, Ty)>, candidates: &Vec<TypedFn>, st: &mut SpecState) -> (out: Vec<MatchArm>)
    ensures
        state_grows(*old(st), *final(st)),
        out@.len() == arms@.len(),
    decreases arms,
{
    let mut out: Vec<MatchArm> = Vec::new();
    let mut i: usize = 0;
    while i < arms.len()
        invariant
            i <= arms@.len(),
            out@.len() == i,
            state_grows(*old(st), *st),
        decreases arms@.len() - i,
    {
        let a = &arms[i];
        let body = rewrite_calls(&a.body, types, candidates, st);
        out.push(MatchArm { pat: a.pat.clone(), body, span: a.span });
        i = i + 1;
    }
    out
}

fn rewrite_entries(es: &Vec<(Expr, Expr)>, types: &Vec<(SpanKey, Ty)>, candidates: &Vec<TypedFn>, st: &mut SpecState) -> (out: Vec<(Expr, Expr)>)
    ensures
        state_grows(*old(st), *final(st)),
        out@.len() == es@.len(),
    decreases es,
{
    let mut out: Vec<(Expr, Expr)> = Vec::new();
    let mut i: usize = 0;
    while i < es.len()
        invariant
            i <= es@.len(),
            out@.len() == i,
            state_grows(*old(st), *st),
        decreases es@.len() - i,
    {
        let k = rewrite_calls(&es[i].0, types, candidates, st);
        let v = rewrite_calls(&es[i].1, types, candidates, st);
        out.push((k, v));
        i = i + 1;
    }
    out
}

// ---------------------------------------------------------------------------
// The pass

/// Specialises the generic internal functions of `fns` at the calls whose
/// argument types are known: each such call is redirected to a copy of the
/// callee with its type parameters replaced, the copies are added (and
/// their own calls rewritten in turn), and the generic functions that some
/// call was redirected away from are dropped. `fuel` bounds the number of
/// functions visited. Without any candidate the functions are returned as
/// they are.
pub fn specialize_internal_typed_fns(fns: Vec<TypedFn>, fuel: usize) -> (r: Vec<TypedFn>)
    ensures
        (forall|i: int| 0 <= i < fns@.len() ==> !is_candidate(#[trigger] fns@[i])) ==> r@ == fns@,
{
    let mut candidates: Vec<TypedFn> = Vec::new();
    let mut i: usize = 0;
    while i < fns.len()
        invariant
            i <= fns@.len(),
            candidates@.len() == 0 ==> forall|j: int| 0 <= j < i ==> !is_candidate(#[trigger] fns@[j]),
            candidates@.len() > 0 ==> exists|j: int| 0 <= j < i && is_candidate(#[trigger] fns@[j]),
        decreases fns@.len() - i,
    {
        if decide_candidate(&fns[i]) {
            candidates.push(clone_typed_fn(&fns[i]));
        }
        i = i + 1;
    }
    if candidates.len() == 0 {
        return fns;
    }
    assert(exists|j: int| 0 <= j < fns@.len() && is_candidate(#[trigger] fns@[j]));
    let mut st = SpecState::new();
    let mut fns = fns;
    let mut idx: usize = 0;
    let mut left: usize = fuel;
    while idx < fns.len() && left > 0
        invariant
            idx <= fns@.len(),
        decreases left,
    {
        let mut f = fns.remove(idx);
        let new_expr = rewrite_calls(&f.body.expr, &f.body.types, &candidates, &mut st);
        f.body.expr = new_expr;
        fns.insert(idx, f);
        let mut pending: Vec<TypedFn> = Vec::new();
        std::mem::swap(&mut pending, &mut st.pending);
        fns.append(&mut pending);
        idx = idx + 1;
        left = left - 1;
    }
    let mut out: Vec<TypedFn> = Vec::new();
    while fns.len() > 0
        invariant
            true,
        decreases fns@.len(),
    {
        let f = fns.remove(0);
        if !crate::typecheck::contains_string(&st.to_remove, &f.def.name) {
            out.push(f);
        }
    }
    out
}

} // verus!
