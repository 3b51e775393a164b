//! Reader data: the forms the reader produces and macros operate on, and
//! their conversion to the s-expressions the AST parser reads.

use vstd::prelude::*;
use crate::diag::Span;
use crate::lexer::TokKind;
use crate::parser::Sexp;

verus! {

/// A form read from source. Float literals keep their spelling.
#[derive(Debug)]
pub enum Datum {
    List(Vec<Datum>, Span),
    Vec(Vec<Datum>, Span),
    MapForm(Vec<(Datum, Datum)>, Span),
    SetForm(Vec<Datum>, Span),
    Meta { meta: Box<Datum>, form: Box<Datum>, span: Span },
    Symbol(String, Span),
    SymbolLit(String, Span),
    Str(String, Span),
    Int(i64, Span),
    Float(String, Span),
    Bool(bool, Span),
    Nil(Span),
}

/// Two data are the same tree: same shapes, spans, atoms and spellings.
pub open spec fn datum_same(a: Datum, b: Datum) -> bool
    decreases a,
{
    match (a, b) {
        (Datum::List(x, s1), Datum::List(y, s2)) => s1 == s2 && x@.len() == y@.len()
            && forall|i: int| 0 <= i < x@.len() ==> datum_same(#[trigger] x@[i], y@[i]),
        (Datum::Vec(x, s1), Datum::Vec(y, s2)) => s1 == s2 && x@.len() == y@.len()
            && forall|i: int| 0 <= i < x@.len() ==> datum_same(#[trigger] x@[i], y@[i]),
        (Datum::SetForm(x, s1), Datum::SetForm(y, s2)) => s1 == s2 && x@.len() == y@.len()
            && forall|i: int| 0 <= i < x@.len() ==> datum_same(#[trigger] x@[i], y@[i]),
        (Datum::MapForm(x, s1), Datum::MapForm(y, s2)) => s1 == s2 && x@.len() == y@.len()
            && forall|i: int| 0 <= i < x@.len() ==> datum_same((#[trigger] x@[i]).0, y@[i].0)
                && datum_same(x@[i].1, y@[i].1),
        (Datum::Meta { meta: m1, form: f1, span: s1 }, Datum::Meta { meta: m2, form: f2, span: s2 }) =>
            s1 == s2 && datum_same(*m1, *m2) && datum_same(*f1, *f2),
        (Datum::Symbol(x, s1), Datum::Symbol(y, s2)) => s1 == s2 && x@ == y@,
        (Datum::SymbolLit(x, s1), Datum::SymbolLit(y, s2)) => s1 == s2 && x@ == y@,
        (Datum::Str(x, s1), Datum::Str(y, s2)) => s1 == s2 && x@ == y@,
        (Datum::Int(x, s1), Datum::Int(y, s2)) => s1 == s2 && x == y,
        (Datum::Float(x, s1), Datum::Float(y, s2)) => s1 == s2 && x@ == y@,
        (Datum::Bool(x, s1), Datum::Bool(y, s2)) => s1 == s2 && x == y,
        (Datum::Nil(s1), Datum::Nil(s2)) => s1 == s2,
        _ => false,
    }
}

/// Being the same tree is transitive.
pub proof fn lemma_datum_same_trans(a: Datum, b: Datum, c: Datum)
    requires
        datum_same(a, b),
        datum_same(b, c),
    ensures
        datum_same(a, c),
    decreases a,
{
    match (a, b, c) {
        (Datum::List(x, _), Datum::List(y, _), Datum::List(z, _)) => {
            assert forall|i: int| 0 <= i < x@.len() implies datum_same(#[trigger] x@[i], z@[i]) by {
                lemma_datum_same_trans(x@[i], y@[i], z@[i]);
            }
        },
        (Datum::Vec(x, _), Datum::Vec(y, _), Datum::Vec(z, _)) => {
            assert forall|i: int| 0 <= i < x@.len() implies datum_same(#[trigger] x@[i], z@[i]) by {
                lemma_datum_same_trans(x@[i], y@[i], z@[i]);
            }
        },
        (Datum::SetForm(x, _), Datum::SetForm(y, _), Datum::SetForm(z, _)) => {
            assert forall|i: int| 0 <= i < x@.len() implies datum_same(#[trigger] x@[i], z@[i]) by {
                lemma_datum_same_trans(x@[i], y@[i], z@[i]);
            }
        },
        (Datum::MapForm(x, _), Datum::MapForm(y, _), Datum::MapForm(z, _)) => {
            assert forall|i: int| 0 <= i < x@.len() implies datum_same((#[trigger] x@[i]).0, z@[i].0)
                && datum_same(x@[i].1, z@[i].1) by {
                lemma_datum_same_trans(x@[i].0, y@[i].0, z@[i].0);
                lemma_datum_same_trans(x@[i].1, y@[i].1, z@[i].1);
            }
        },
        (Datum::Meta { meta: m1, form: f1, .. }, Datum::Meta { meta: m2, form: f2, .. }, Datum::Meta { meta: m3, form: f3, .. }) => {
            lemma_datum_same_trans(*m1, *m2, *m3);
            lemma_datum_same_trans(*f1, *f2, *f3);
        },
        _ => {},
    }
}

fn clone_data(items: &Vec<Datum>) -> (out: Vec<Datum>)
    ensures
        out@.len() == items@.len(),
        forall|i: int| 0 <= i < items@.len() ==> datum_same(#[trigger] out@[i], items@[i]),
    decreases items,
{
    let mut out: Vec<Datum> = Vec::new();
    let mut i: usize = 0;
    while i < items.len()
        invariant
            i <= items@.len(),
            out@.len() == i,
            forall|j: int| 0 <= j < i ==> datum_same(#[trigger] out@[j], items@[j]),
        decreases items@.len() - i,
    {
        out.push(clone_datum(&items[i]));
        i = i + 1;
    }
    out
}

fn clone_entries(entries: &Vec<(Datum, Datum)>) -> (out: Vec<(Datum, Datum)>)
    ensures
        out@.len() == entries@.len(),
        forall|i: int| 0 <= i < entries@.len() ==> datum_same((#[trigger] out@[i]).0, entries@[i].0)
            && datum_same(out@[i].1, entries@[i].1),
    decreases entries,
{
    let mut out: Vec<(Datum, Datum)> = Vec::new();
    let mut i: usize = 0;
    while i < entries.len()
        invariant
            i <= entries@.len(),
            out@.len() == i,
            forall|j: int| 0 <= j < i ==> datum_same((#[trigger] out@[j]).0, entries@[j].0)
                && datum_same(out@[j].1, entries@[j].1),
        decreases entries@.len() - i,
    {
        let k = clone_datum(&entries[i].0);
        let v = clone_datum(&entries[i].1);
        out.push((k, v));
        i = i + 1;
    }
    out
}

/// A copy of a datum tree.
pub fn clone_datum(d: &Datum) -> (r: Datum)
    ensures
        datum_same(r, *d),
    decreases d,
{
    match d {
        Datum::List(items, sp) => Datum::List(clone_data(items), *sp),
        Datum::Vec(items, sp) => Datum::Vec(clone_data(items), *sp),
        Datum::SetForm(items, sp) => Datum::SetForm(clone_data(items), *sp),
        Datum::MapForm(entries, sp) => Datum::MapForm(clone_entries(entries), *sp),
        Datum::Meta { meta, form, span } => Datum::Meta {
            meta: Box::new(clone_datum(meta)),
            form: Box::new(clone_datum(form)),
            span: *span,
        },
        Datum::Symbol(s, sp) => Datum::Symbol(s.clone(), *sp),
        Datum::SymbolLit(s, sp) => Datum::SymbolLit(s.clone(), *sp),
        Datum::Str(s, sp) => Datum::Str(s.clone(), *sp),
        Datum::Int(v, sp) => Datum::Int(*v, *sp),
        Datum::Float(v, sp) => Datum::Float(v.clone(), *sp),
        Datum::Bool(b, sp) => Datum::Bool(*b, *sp),
        Datum::Nil(sp) => Datum::Nil(*sp),
    }
}

impl Clone for Datum {
    fn clone(&self) -> (r: Datum) {
        clone_datum(self)
    }
}

/// The span recorded in a datum.
pub open spec fn spec_datum_span(d: Datum) -> Span {
    match d {
        Datum::List(_, sp) => sp,
        Datum::Vec(_, sp) => sp,
        Datum::MapForm(_, sp) => sp,
        Datum::SetForm(_, sp) => sp,
        Datum::Meta { span, .. } => span,
        Datum::Symbol(_, sp) => sp,
        Datum::SymbolLit(_, sp) => sp,
        Datum::Str(_, sp) => sp,
        Datum::Int(_, sp) => sp,
        Datum::Float(_, sp) => sp,
        Datum::Bool(_, sp) => sp,
        Datum::Nil(sp) => sp,
    }
}

/// The span recorded in a datum.
pub fn datum_span(d: &Datum) -> (sp: Span)
    ensures
        sp == spec_datum_span(*d),
{
    match d {
        Datum::List(_, sp) => *sp,
        Datum::Vec(_, sp) => *sp,
        Datum::MapForm(_, sp) => *sp,
        Datum::SetForm(_, sp) => *sp,
        Datum::Meta { span, .. } => *span,
        Datum::Symbol(_, sp) => *sp,
        Datum::SymbolLit(_, sp) => *sp,
        Datum::Str(_, sp) => *sp,
        Datum::Int(_, sp) => *sp,
        Datum::Float(_, sp) => *sp,
        Datum::Bool(_, sp) => *sp,
        Datum::Nil(sp) => *sp,
    }
}

/// The shape an s-expression takes after conversion from a datum, read
/// from the datum alone: the same kind of bracket or atom, at the same span,
/// with one child per element (two per map entry); metadata is dropped.
pub open spec fn converts(d: Datum, s: Sexp) -> bool
    decreases d,
{
    match d {
        Datum::List(items, sp) => s matches Sexp::List(out, osp) && osp == sp && out@.len() == items@.len()
            && forall|i: int| 0 <= i < items@.len() ==> converts(#[trigger] items@[i], out@[i]),
        Datum::Vec(items, sp) => s matches Sexp::Brack(out, osp) && osp == sp && out@.len() == items@.len()
            && forall|i: int| 0 <= i < items@.len() ==> converts(#[trigger] items@[i], out@[i]),
        Datum::SetForm(items, sp) => s matches Sexp::SetForm(out, osp) && osp == sp && out@.len() == items@.len()
            && forall|i: int| 0 <= i < items@.len() ==> converts(#[trigger] items@[i], out@[i]),
        Datum::MapForm(entries, sp) => s matches Sexp::Brace(out, osp) && osp == sp && out@.len() == 2 * entries@.len()
            && forall|i: int| 0 <= i < entries@.len() ==> converts(#[trigger] entries@[i].0, out@[2 * i]) && converts(entries@[i].1, out@[2 * i + 1]),
        Datum::Meta { form, .. } => converts(*form, s),
        Datum::Symbol(name, sp) => s matches Sexp::Atom(TokKind::Sym(t), osp) && t@ == name@ && osp == sp,
        Datum::SymbolLit(name, sp) => s matches Sexp::Atom(TokKind::Sym(t), osp) && t@ == name@ && osp == sp,
        Datum::Str(v, sp) => s matches Sexp::Atom(TokKind::Str(t), osp) && t@ == v@ && osp == sp,
        Datum::Int(v, sp) => s == Sexp::Atom(TokKind::Int(v), sp),
        Datum::Float(v, sp) => s matches Sexp::Atom(TokKind::Float(t), osp) && t@ == v@ && osp == sp,
        Datum::Bool(b, sp) => s matches Sexp::Atom(TokKind::Sym(t), osp) && osp == sp
            && t@ == (if b { "true"@ } else { "false"@ }),
        Datum::Nil(sp) => s matches Sexp::Atom(TokKind::Sym(t), osp) && t@ == "nil"@ && osp == sp,
    }
}

fn copy_string(s: &String) -> (t: String)
    ensures
        t@ == s@,
{
    s.clone()
}

/// Converts one datum to the s-expression the AST parser reads.
pub fn datum_to_sexp(d: &Datum) -> (s: Sexp)
    ensures
        converts(*d, s),
    decreases d,
{
    match d {
        Datum::List(items, sp) => {
            let out = datums_to_sexps_vec(items);
            let r = Sexp::List(out, *sp);
            assert(r matches Sexp::List(o, osp) && osp == *sp && o@.len() == items@.len());
            assert(forall|i: int| 0 <= i < items@.len() ==> converts(#[trigger] items@[i], out@[i]));
            r
        }
        Datum::Vec(items, sp) => Sexp::Brack(datums_to_sexps_vec(items), *sp),
        Datum::SetForm(items, sp) => Sexp::SetForm(datums_to_sexps_vec(items), *sp),
        Datum::MapForm(entries, sp) => Sexp::Brace(entries_to_sexps(entries), *sp),
        Datum::Meta { form, .. } => datum_to_sexp(form),
        Datum::Symbol(s, sp) => Sexp::Atom(TokKind::Sym(copy_string(s)), *sp),
        Datum::SymbolLit(s, sp) => Sexp::Atom(TokKind::Sym(copy_string(s)), *sp),
        Datum::Str(s, sp) => Sexp::Atom(TokKind::Str(copy_string(s)), *sp),
        Datum::Int(v, sp) => Sexp::Atom(TokKind::Int(*v), *sp),
        Datum::Float(v, sp) => Sexp::Atom(TokKind::Float(copy_string(v)), *sp),
        Datum::Bool(b, sp) => {
            let sym = if *b { String::from_str("true") } else { String::from_str("false") };
            Sexp::Atom(TokKind::Sym(sym), *sp)
        }
        Datum::Nil(sp) => Sexp::Atom(TokKind::Sym(String::from_str("nil")), *sp),
    }
}

fn entries_to_sexps(entries: &Vec<(Datum, Datum)>) -> (out: Vec<Sexp>)
    ensures
        out@.len() == 2 * entries@.len(),
        forall|j: int| 0 <= j < entries@.len() ==> converts(#[trigger] entries@[j].0, out@[2 * j]) && converts(entries@[j].1, out@[2 * j + 1]),
    decreases entries,
{
    let mut out: Vec<Sexp> = Vec::new();
    let mut i: usize = 0;
    while i < entries.len()
        invariant
            i <= entries@.len(),
            out@.len() == 2 * i,
            forall|j: int| 0 <= j < i ==> converts(#[trigger] entries@[j].0, out@[2 * j]) && converts(entries@[j].1, out@[2 * j + 1]),
        decreases entries@.len() - i,
    {
        let k = datum_to_sexp(&entries[i].0);
        let v = datum_to_sexp(&entries[i].1);
        let ghost prev = out@;
        out.push(k);
        out.push(v);
        assert forall|j: int| 0 <= j < i + 1 implies converts(#[trigger] entries@[j].0, out@[2 * j]) && converts(entries@[j].1, out@[2 * j + 1]) by {
            if j < i {
                assert(out@[2 * j] == prev[2 * j] && out@[2 * j + 1] == prev[2 * j + 1]);
            }
        }
        i = i + 1;
    }
    out
}

fn datums_to_sexps_vec(items: &Vec<Datum>) -> (out: Vec<Sexp>)
    ensures
        out@.len() == items@.len(),
        forall|i: int| 0 <= i < items@.len() ==> converts(#[trigger] items@[i], out@[i]),
    decreases items,
{
    let mut out: Vec<Sexp> = Vec::new();
    let mut i: usize = 0;
    while i < items.len()
        invariant
            i <= items@.len(),
            out@.len() == i,
            forall|j: int| 0 <= j < i ==> converts(#[trigger] items@[j], out@[j]),
        decreases items@.len() - i,
    {
        let s = datum_to_sexp(&items[i]);
        out.push(s);
        i = i + 1;
    }
    out
}

/// Converts a sequence of data, one s-expression per datum.
pub fn datums_to_sexps(items: &[Datum]) -> (out: Vec<Sexp>)
    ensures
        out@.len() == items@.len(),
        forall|i: int| 0 <= i < items@.len() ==> converts(#[trigger] items@[i], out@[i]),
{
    let mut out: Vec<Sexp> = Vec::new();
    let mut i: usize = 0;
    while i < items.len()
        invariant
            i <= items@.len(),
            out@.len() == i,
            forall|j: int| 0 <= j < i ==> converts(#[trigger] items@[j], out@[j]),
        decreases items@.len() - i,
    {
        let s = datum_to_sexp(&items[i]);
        out.push(s);
        i = i + 1;
    }
    out
}

} // verus!
