//! The abstract syntax tree and the parser from s-expressions to it.

use vstd::prelude::*;
use crate::diag::{Diag, DslResult, Loc, Span};
use crate::lexer::TokKind;
use crate::parser::Sexp;
use crate::text::{
    alnum, chars_eq, chars_eq_ignore_case, chars_is, concat2, concat3, contains_char, copy,
    eq_ignore_case, find_char, is_alnum, lit_chars, lower, rfind_char, string_chars,
    string_from_chars, sub_chars, sub_string, to_upper, upper, is_lit, push_char,
};

verus! {

/// Which map a map type or literal stands for.
#[derive(Debug, Clone, Copy, PartialEq, Eq, Structural)]
pub enum MapKind {
    Hash,
    BTree,
}

/// A type of the language.
#[derive(Debug)]
pub enum Ty {
    Named(String),
    Vec(Box<Ty>),
    SetOf(Box<Ty>),
    Option(Box<Ty>),
    Result(Box<Ty>, Box<Ty>),
    MapOf(MapKind, Box<Ty>, Box<Ty>),
    Union(Vec<Ty>),
    Generic(u32),
    Unknown,
}

/// Two types are the same: same shape, names spelled the same.
pub open spec fn ty_same(a: Ty, b: Ty) -> bool
    decreases a,
{
    match (a, b) {
        (Ty::Named(x), Ty::Named(y)) => x@ == y@,
        (Ty::Vec(x), Ty::Vec(y)) => ty_same(*x, *y),
        (Ty::SetOf(x), Ty::SetOf(y)) => ty_same(*x, *y),
        (Ty::Option(x), Ty::Option(y)) => ty_same(*x, *y),
        (Ty::Result(x1, x2), Ty::Result(y1, y2)) => ty_same(*x1, *y1) && ty_same(*x2, *y2),
        (Ty::MapOf(k1, x1, x2), Ty::MapOf(k2, y1, y2)) => k1 == k2 && ty_same(*x1, *y1) && ty_same(*x2, *y2),
        (Ty::Union(xs), Ty::Union(ys)) => xs@.len() == ys@.len()
            && forall|i: int| 0 <= i < xs@.len() ==> ty_same(#[trigger] xs@[i], ys@[i]),
        (Ty::Generic(x), Ty::Generic(y)) => x == y,
        (Ty::Unknown, Ty::Unknown) => true,
        _ => false,
    }
}

/// Every type is the same as itself.
pub proof fn lemma_ty_same_refl(a: Ty)
    ensures
        ty_same(a, a),
    decreases a,
{
    match a {
        Ty::Vec(x) => lemma_ty_same_refl(*x),
        Ty::SetOf(x) => lemma_ty_same_refl(*x),
        Ty::Option(x) => lemma_ty_same_refl(*x),
        Ty::Result(x, y) => {
            lemma_ty_same_refl(*x);
            lemma_ty_same_refl(*y);
        },
        Ty::MapOf(_, x, y) => {
            lemma_ty_same_refl(*x);
            lemma_ty_same_refl(*y);
        },
        Ty::Union(xs) => {
            assert forall|i: int| 0 <= i < xs@.len() implies ty_same(#[trigger] xs@[i], xs@[i]) by {
                lemma_ty_same_refl(xs@[i]);
            }
        },
        _ => {},
    }
}

/// Sameness of types is transitive.
pub proof fn lemma_ty_same_trans(a: Ty, b: Ty, c: Ty)
    requires
        ty_same(a, b),
        ty_same(b, c),
    ensures
        ty_same(a, c),
    decreases a,
{
    match (a, b, c) {
        (Ty::Vec(x), Ty::Vec(y), Ty::Vec(z)) => lemma_ty_same_trans(*x, *y, *z),
        (Ty::SetOf(x), Ty::SetOf(y), Ty::SetOf(z)) => lemma_ty_same_trans(*x, *y, *z),
        (Ty::Option(x), Ty::Option(y), Ty::Option(z)) => lemma_ty_same_trans(*x, *y, *z),
        (Ty::Result(x1, x2), Ty::Result(y1, y2), Ty::Result(z1, z2)) => {
            lemma_ty_same_trans(*x1, *y1, *z1);
            lemma_ty_same_trans(*x2, *y2, *z2);
        },
        (Ty::MapOf(_, x1, x2), Ty::MapOf(_, y1, y2), Ty::MapOf(_, z1, z2)) => {
            lemma_ty_same_trans(*x1, *y1, *z1);
            lemma_ty_same_trans(*x2, *y2, *z2);
        },
        (Ty::Union(xs), Ty::Union(ys), Ty::Union(zs)) => {
            assert forall|i: int| 0 <= i < xs@.len() implies ty_same(#[trigger] xs@[i], zs@[i]) by {
                lemma_ty_same_trans(xs@[i], ys@[i], zs@[i]);
            }
        },
        _ => {},
    }
}

/// Sameness of types is symmetric.
pub proof fn lemma_ty_same_symmetric(a: Ty, b: Ty)
    ensures
        ty_same(a, b) == ty_same(b, a),
    decreases a,
{
    match (a, b) {
        (Ty::Vec(x), Ty::Vec(y)) => lemma_ty_same_symmetric(*x, *y),
        (Ty::SetOf(x), Ty::SetOf(y)) => lemma_ty_same_symmetric(*x, *y),
        (Ty::Option(x), Ty::Option(y)) => lemma_ty_same_symmetric(*x, *y),
        (Ty::Result(x1, x2), Ty::Result(y1, y2)) => {
            lemma_ty_same_symmetric(*x1, *y1);
            lemma_ty_same_symmetric(*x2, *y2);
        },
        (Ty::MapOf(_, x1, x2), Ty::MapOf(_, y1, y2)) => {
            lemma_ty_same_symmetric(*x1, *y1);
            lemma_ty_same_symmetric(*x2, *y2);
        },
        (Ty::Union(xs), Ty::Union(ys)) => {
            if xs@.len() == ys@.len() {
                assert forall|i: int| 0 <= i < xs@.len() implies ty_same(#[trigger] xs@[i], ys@[i]) == ty_same(ys@[i], xs@[i]) by {
                    lemma_ty_same_symmetric(xs@[i], ys@[i]);
                }
            }
        },
        _ => {},
    }
}

/// Decides whether two types are the same.
pub fn ty_eq(a: &Ty, b: &Ty) -> (r: bool)
    ensures
        r == ty_same(*a, *b),
    decreases a,
{
    match (a, b) {
        (Ty::Named(x), Ty::Named(y)) => *x == *y,
        (Ty::Vec(x), Ty::Vec(y)) => ty_eq(x, y),
        (Ty::SetOf(x), Ty::SetOf(y)) => ty_eq(x, y),
        (Ty::Option(x), Ty::Option(y)) => ty_eq(x, y),
        (Ty::Result(x1, x2), Ty::Result(y1, y2)) => ty_eq(x1, y1) && ty_eq(x2, y2),
        (Ty::MapOf(k1, x1, x2), Ty::MapOf(k2, y1, y2)) => *k1 == *k2 && ty_eq(x1, y1) && ty_eq(x2, y2),
        (Ty::Union(xs), Ty::Union(ys)) => tys_eq(xs, ys),
        (Ty::Generic(x), Ty::Generic(y)) => *x == *y,
        (Ty::Unknown, Ty::Unknown) => true,
        _ => false,
    }
}

fn tys_eq(xs: &Vec<Ty>, ys: &Vec<Ty>) -> (r: bool)
    ensures
        r == (xs@.len() == ys@.len() && forall|i: int| 0 <= i < xs@.len() ==> ty_same(#[trigger] xs@[i], ys@[i])),
    decreases xs,
{
    if xs.len() != ys.len() {
        return false;
    }
    let mut i: usize = 0;
    while i < xs.len()
        invariant
            xs@.len() == ys@.len(),
            i <= xs@.len(),
            forall|j: int| 0 <= j < i ==> ty_same(#[trigger] xs@[j], ys@[j]),
        decreases xs@.len() - i,
    {
        if !ty_eq(&xs[i], &ys[i]) {
            return false;
        }
        i = i + 1;
    }
    true
}

/// Copies of a sequence of types.
pub fn clone_tys(xs: &Vec<Ty>) -> (out: Vec<Ty>)
    ensures
        out@.len() == xs@.len(),
        forall|j: int| 0 <= j < xs@.len() ==> ty_same(#[trigger] out@[j], xs@[j]),
    decreases xs,
{
    let mut out: Vec<Ty> = Vec::new();
    let mut i: usize = 0;
    while i < xs.len()
        invariant
            i <= xs@.len(),
            out@.len() == i,
            forall|j: int| 0 <= j < i ==> ty_same(#[trigger] out@[j], xs@[j]),
        decreases xs@.len() - i,
    {
        out.push(clone_ty(&xs[i]));
        i = i + 1;
    }
    out
}

/// A copy of a type that is the same type.
pub fn clone_ty(t: &Ty) -> (r: Ty)
    ensures
        ty_same(r, *t),
    decreases t,
{
    match t {
        Ty::Named(n) => Ty::Named(copy(n)),
        Ty::Vec(x) => Ty::Vec(Box::new(clone_ty(x))),
        Ty::SetOf(x) => Ty::SetOf(Box::new(clone_ty(x))),
        Ty::Option(x) => Ty::Option(Box::new(clone_ty(x))),
        Ty::Result(x, y) => Ty::Result(Box::new(clone_ty(x)), Box::new(clone_ty(y))),
        Ty::MapOf(k, x, y) => Ty::MapOf(*k, Box::new(clone_ty(x)), Box::new(clone_ty(y))),
        Ty::Union(xs) => Ty::Union(clone_tys(xs)),
        Ty::Generic(id) => Ty::Generic(*id),
        Ty::Unknown => Ty::Unknown,
    }
}

impl Clone for Ty {
    fn clone(&self) -> (r: Ty) {
        clone_ty(self)
    }
}

/// The Rust spelling of a type.
pub open spec fn ty_rust_spec(t: Ty) -> Seq<char>
    decreases t,
{
    match t {
        Ty::Named(s) => s@,
        Ty::Vec(inner) => "std::sync::Arc<Vec<"@ + ty_rust_spec(*inner) + ">>"@,
        Ty::SetOf(inner) => "std::collections::HashSet<"@ + ty_rust_spec(*inner) + ">"@,
        Ty::Option(inner) => "Option<"@ + ty_rust_spec(*inner) + ">"@,
        Ty::Result(ok, err) => "Result<"@ + ty_rust_spec(*ok) + ", "@ + ty_rust_spec(*err) + ">"@,
        Ty::MapOf(kind, k, v) => (match kind {
            MapKind::Hash => "std::collections::HashMap"@,
            MapKind::BTree => "std::collections::BTreeMap"@,
        }) + "<"@ + ty_rust_spec(*k) + ", "@ + ty_rust_spec(*v) + ">"@,
        Ty::Union(_) => "__DarcyUnion"@,
        Ty::Generic(id) => "T"@ + crate::text::decimal(id as nat),
        Ty::Unknown => "_"@,
    }
}

impl Ty {
    /// The Rust spelling of this type.
    pub fn rust(&self) -> (s: String)
        ensures
            s@ == ty_rust_spec(*self),
        decreases self,
    {
        match self {
            Ty::Named(s) => copy(s),
            Ty::Vec(inner) => {
                let i = inner.rust();
                concat3("std::sync::Arc<Vec<", i.as_str(), ">>")
            }
            Ty::SetOf(inner) => {
                let i = inner.rust();
                concat3("std::collections::HashSet<", i.as_str(), ">")
            }
            Ty::Option(inner) => {
                let i = inner.rust();
                concat3("Option<", i.as_str(), ">")
            }
            Ty::Result(ok, err) => {
                let a = ok.rust();
                let b = err.rust();
                let mut s = concat3("Result<", a.as_str(), ", ");
                s.append(b.as_str());
                s.append(">");
                s
            }
            Ty::MapOf(kind, k, v) => {
                let a = k.rust();
                let b = v.rust();
                let mut s = match kind {
                    MapKind::Hash => String::from_str("std::collections::HashMap"),
                    MapKind::BTree => String::from_str("std::collections::BTreeMap"),
                };
                s.append("<");
                s.append(a.as_str());
                s.append(", ");
                s.append(b.as_str());
                s.append(">");
                s
            }
            Ty::Union(_) => String::from_str("__DarcyUnion"),
            Ty::Generic(id) => {
                let n = crate::text::u64_decimal_chars(*id as u64);
                let d = string_from_chars(n.as_slice());
                concat2("T", d.as_str())
            }
            Ty::Unknown => String::from_str("_"),
        }
    }
}

/// A field of a record or enum variant.
#[derive(Debug, Clone)]
pub struct Field {
    pub name: String,
    pub rust_name: String,
    pub ty: Ty,
    pub span: Span,
}

/// A record definition.
#[derive(Debug, Clone)]
pub struct StructDef {
    pub name: String,
    pub rust_name: String,
    pub fields: Vec<Field>,
    pub span: Span,
    pub extern_: bool,
}

/// A variant of an enum.
#[derive(Debug, Clone)]
pub struct VariantDef {
    pub name: String,
    pub rust_name: String,
    pub fields: Vec<Field>,
    pub span: Span,
}

/// An enum (tagged union) definition.
#[derive(Debug, Clone)]
pub struct UnionDef {
    pub name: String,
    pub rust_name: String,
    pub variants: Vec<VariantDef>,
    pub span: Span,
    pub extern_: bool,
}

/// A function or lambda parameter.
#[derive(Debug, Clone)]
pub struct Param {
    pub name: String,
    pub rust_name: String,
    pub ann: Option<Ty>,
    pub span: Span,
}

/// A `require` declaration.
#[derive(Debug, Clone)]
pub struct UseDecl {
    pub path: String,
    pub alias: Option<String>,
    pub only: Option<Vec<String>>,
    pub open: bool,
    pub span: Span,
}

/// A pattern of a `case` arm: a variant with field bindings
/// `(field, binding, span)`, or `_`.
#[derive(Debug, Clone)]
pub enum MatchPat {
    Variant { name: String, bindings: Vec<(String, String, Span)>, span: Span },
    Wildcard(Span),
}

// ---------------------------------------------------------------------------
// Identifier classes and Rust names

/// kebab-case: a lowercase letter, then lowercase letters, digits and '-'.
pub open spec fn is_lisp_ident_spec(s: Seq<char>) -> bool {
    s.len() > 0 && crate::text::is_lower(s[0])
        && forall|i: int| 1 <= i < s.len() ==> (crate::text::is_lower(#[trigger] s[i]) || crate::text::is_ascii_digit(s[i]) || s[i] == '-')
}

/// Decides `is_lisp_ident_spec`.
pub fn is_lisp_ident(s: &[char]) -> (b: bool)
    ensures
        b == is_lisp_ident_spec(s@),
{
    if s.len() == 0 {
        return false;
    }
    if !('a' <= s[0] && s[0] <= 'z') {
        return false;
    }
    let mut i: usize = 1;
    while i < s.len()
        invariant
            1 <= i <= s@.len(),
            forall|j: int| 1 <= j < i ==> (crate::text::is_lower(#[trigger] s@[j]) || crate::text::is_ascii_digit(s@[j]) || s@[j] == '-'),
        decreases s@.len() - i,
    {
        let c = s[i];
        if !(('a' <= c && c <= 'z') || ('0' <= c && c <= '9') || c == '-') {
            return false;
        }
        i = i + 1;
    }
    true
}

/// Characters allowed in callable names.
pub open spec fn is_callable_char(c: char) -> bool {
    is_alnum(c) || c == '-' || c == '_' || c == '?' || c == '!' || c == '*' || c == '+' || c == '='
        || c == '<' || c == '>' || c == '$'
}

/// A callable name: nonempty, callable characters, not starting with a digit.
pub open spec fn is_callable_ident_spec(s: Seq<char>) -> bool {
    s.len() > 0 && !crate::text::is_ascii_digit(s[0]) && s[0] != '/' && s[0] != '.'
        && forall|i: int| 0 <= i < s.len() ==> is_callable_char(#[trigger] s[i])
}

/// Decides `is_callable_ident_spec`.
pub fn is_callable_ident(s: &[char]) -> (b: bool)
    ensures
        b == is_callable_ident_spec(s@),
{
    if s.len() == 0 {
        return false;
    }
    let first = s[0];
    if ('0' <= first && first <= '9') || first == '/' || first == '.' {
        return false;
    }
    let mut i: usize = 0;
    while i < s.len()
        invariant
            i <= s@.len(),
            forall|j: int| 0 <= j < i ==> is_callable_char(#[trigger] s@[j]),
        decreases s@.len() - i,
    {
        let c = s[i];
        if !(alnum(c) || c == '-' || c == '_' || c == '?' || c == '!' || c == '*' || c == '+' || c == '='
            || c == '<' || c == '>' || c == '$') {
            return false;
        }
        i = i + 1;
    }
    true
}

/// Whether every '.'-separated part of `s` is a kebab-case identifier.
pub open spec fn is_module_path_spec(s: Seq<char>) -> bool
    decreases s.len(),
{
    match crate::text::first_index(s, '.') {
        None => is_lisp_ident_spec(s),
        Some(i) => {
            proof { crate::text::lemma_first_index(s, '.'); }
            is_lisp_ident_spec(s.subrange(0, i)) && is_module_path_spec(s.subrange(i + 1, s.len() as int))
        }
    }
}

/// Decides `is_module_path_spec`.
pub fn is_module_path(s: &[char]) -> (b: bool)
    ensures
        b == is_module_path_spec(s@),
    decreases s@.len(),
{
    proof { crate::text::lemma_first_index(s@, '.'); }
    match find_char(s, '.') {
        None => {
            proof {
                if crate::text::first_index(s@, '.') is Some {
                    let k = crate::text::first_index(s@, '.').unwrap();
                    assert(s@.contains('.')) by { assert(s@[k] == '.'); }
                }
            }
            is_lisp_ident(s)
        }
        Some(i) => {
            let ghost k = crate::text::first_index(s@, '.');
            proof {
                assert(k is Some);
                let w = k.unwrap();
                if w < i as int { assert(s@[w] == '.'); }
                if (i as int) < w { assert(s@[i as int] == '.'); }
            }
            let _n = s.len();
            let head = sub_chars(s, 0, i);
            let tail = sub_chars(s, i + 1, s.len());
            is_lisp_ident(head.as_slice()) && is_module_path(tail.as_slice())
        }
    }
}

/// Primitive type names that need no further checking.
pub open spec fn is_primitive_type_spec(s: Seq<char>) -> bool {
    s == "i8"@ || s == "i16"@ || s == "i32"@ || s == "i64"@ || s == "i128"@ || s == "u8"@
        || s == "u16"@ || s == "u32"@ || s == "u64"@ || s == "u128"@ || s == "f32"@ || s == "f64"@
        || s == "bool"@ || s == "usize"@ || s == "isize"@ || s == "()"@ || s == "string"@
        || s == "hashset"@
}

/// Decides `is_primitive_type_spec`.
pub fn is_primitive_type(s: &String) -> (b: bool)
    ensures
        b == is_primitive_type_spec(s@),
{
    is_lit(s, "i8") || is_lit(s, "i16") || is_lit(s, "i32") || is_lit(s, "i64") || is_lit(s, "i128")
        || is_lit(s, "u8") || is_lit(s, "u16") || is_lit(s, "u32") || is_lit(s, "u64")
        || is_lit(s, "u128") || is_lit(s, "f32") || is_lit(s, "f64") || is_lit(s, "bool")
        || is_lit(s, "usize") || is_lit(s, "isize") || is_lit(s, "()") || is_lit(s, "string")
        || is_lit(s, "hashset")
}

/// The words of the language that cannot name things.
pub open spec fn is_reserved_spec(s: Seq<char>) -> bool {
    s == "def"@ || s == "defn"@ || s == "defpub"@ || s == "defin"@ || s == "defstruct"@
        || s == "defrecord"@ || s == "defunion"@ || s == "defenum"@ || s == "extern"@
        || s == "match"@ || s == "export"@ || s == "quote"@ || s == "syntax-quote"@
        || s == "unquote"@ || s == "unquote-splicing"@ || s == "with-meta"@ || s == "type"@
        || s == "cast"@ || s == "case"@ || s == "cond"@ || s == "and"@ || s == "or"@
        || s == "when"@ || s == "if"@ || s == "do"@ || s == "loop"@ || s == "while"@
        || s == "for"@ || s == "break"@ || s == "continue"@ || s == "let"@ || s == "let!"@
        || s == "fn"@ || s == "call"@ || s == "require"@ || s == "true"@ || s == "false"@
        || s == "nil"@ || s == "list"@ || s == "vec"@ || s == "set"@ || s == "hashset"@
        || s == "range"@ || s == "range-incl"@
}

/// Decides `is_reserved_spec`.
pub fn is_reserved_ident(s: &[char]) -> (b: bool)
    ensures
        b == is_reserved_spec(s@),
{
    chars_is(s, "def") || chars_is(s, "defn") || chars_is(s, "defpub") || chars_is(s, "defin")
        || chars_is(s, "defstruct") || chars_is(s, "defrecord") || chars_is(s, "defunion")
        || chars_is(s, "defenum") || chars_is(s, "extern") || chars_is(s, "match")
        || chars_is(s, "export") || chars_is(s, "quote") || chars_is(s, "syntax-quote")
        || chars_is(s, "unquote") || chars_is(s, "unquote-splicing") || chars_is(s, "with-meta")
        || chars_is(s, "type") || chars_is(s, "cast") || chars_is(s, "case") || chars_is(s, "cond")
        || chars_is(s, "and") || chars_is(s, "or") || chars_is(s, "when") || chars_is(s, "if")
        || chars_is(s, "do") || chars_is(s, "loop") || chars_is(s, "while") || chars_is(s, "for")
        || chars_is(s, "break") || chars_is(s, "continue") || chars_is(s, "let")
        || chars_is(s, "let!") || chars_is(s, "fn") || chars_is(s, "call")
        || chars_is(s, "require") || chars_is(s, "true") || chars_is(s, "false")
        || chars_is(s, "nil") || chars_is(s, "list") || chars_is(s, "vec") || chars_is(s, "set")
        || chars_is(s, "hashset") || chars_is(s, "range") || chars_is(s, "range-incl")
}

/// The arithmetic, comparison and bitwise operators.
pub open spec fn is_builtin_op_spec(s: Seq<char>) -> bool {
    s == "+"@ || s == "-"@ || s == "*"@ || s == "/"@ || s == "mod"@ || s == "="@ || s == "<"@
        || s == ">"@ || s == "<="@ || s == ">="@ || s == "&"@ || s == "|"@
}

/// Decides `is_builtin_op_spec`.
pub fn is_builtin_op(s: &String) -> (b: bool)
    ensures
        b == is_builtin_op_spec(s@),
{
    is_lit(s, "+") || is_lit(s, "-") || is_lit(s, "*") || is_lit(s, "/") || is_lit(s, "mod")
        || is_lit(s, "=") || is_lit(s, "<") || is_lit(s, ">") || is_lit(s, "<=") || is_lit(s, ">=")
        || is_lit(s, "&") || is_lit(s, "|")
}

/// How one character of a name is spelled in a Rust identifier.
pub open spec fn rust_char(c: char) -> Seq<char> {
    if is_alnum(c) { seq![c] }
    else if c == '-' || c == '_' { seq!['_'] }
    else if c == '?' { "_q"@ }
    else if c == '!' { "_bang"@ }
    else if c == '*' { "_star"@ }
    else if c == '+' { "_plus"@ }
    else if c == '=' { "_eq"@ }
    else if c == '<' { "_lt"@ }
    else if c == '>' { "_gt"@ }
    else if c == '$' { "_dollar"@ }
    else if c == '&' { "_and"@ }
    else if c == '|' { "_or"@ }
    else { seq!['_'] }
}

/// The characters of `s` spelled as Rust identifier characters.
pub open spec fn rust_chars(s: Seq<char>) -> Seq<char>
    decreases s.len(),
{
    if s.len() == 0 { Seq::empty() } else { rust_chars(s.drop_last()) + rust_char(s.last()) }
}

/// The part of a possibly qualified name after its last '/'.
pub open spec fn base_name(s: Seq<char>) -> Seq<char>
    decreases s.len(),
{
    if s.len() == 0 { s }
    else if s.last() == '/' { Seq::empty() }
    else { base_name(s.drop_last()).push(s.last()) }
}

/// The Rust value name of a (possibly qualified) name: the last path
/// segment spelled with identifier characters, `v` when empty, and a leading
/// `_` before a digit.
pub open spec fn rust_value_name_spec(s: Seq<char>) -> Seq<char> {
    let out = rust_chars(base_name(s));
    if out.len() == 0 { "v"@ }
    else if crate::text::is_ascii_digit(out[0]) { seq!['_'] + out }
    else { out }
}

fn push_lit(out: &mut Vec<char>, lit: &str)
    ensures
        final(out)@ == old(out)@ + lit@,
{
    let l = lit_chars(lit);
    let mut i: usize = 0;
    while i < l.len()
        invariant
            i <= l@.len(),
            out@ == old(out)@ + l@.subrange(0, i as int),
        decreases l@.len() - i,
    {
        out.push(l[i]);
        i = i + 1;
        assert(out@ =~= old(out)@ + l@.subrange(0, i as int));
    }
    assert(l@.subrange(0, l@.len() as int) =~= l@);
}

fn push_rust_char(out: &mut Vec<char>, c: char)
    ensures
        final(out)@ == old(out)@ + rust_char(c),
{
    if alnum(c) {
        out.push(c);
        assert(out@ =~= old(out)@ + rust_char(c));
    } else if c == '-' || c == '_' {
        out.push('_');
        assert(out@ =~= old(out)@ + rust_char(c));
    } else if c == '?' { push_lit(out, "_q"); }
    else if c == '!' { push_lit(out, "_bang"); }
    else if c == '*' { push_lit(out, "_star"); }
    else if c == '+' { push_lit(out, "_plus"); }
    else if c == '=' { push_lit(out, "_eq"); }
    else if c == '<' { push_lit(out, "_lt"); }
    else if c == '>' { push_lit(out, "_gt"); }
    else if c == '$' { push_lit(out, "_dollar"); }
    else if c == '&' { push_lit(out, "_and"); }
    else if c == '|' { push_lit(out, "_or"); }
    else {
        out.push('_');
        assert(out@ =~= old(out)@ + rust_char(c));
    }
}

proof fn lemma_base_name(s: Seq<char>)
    ensures
        (!s.contains('/')) ==> base_name(s) == s,
        forall|i: int| 0 <= i < s.len() && s[i] == '/' && (forall|j: int| i < j < s.len() ==> s[j] != '/')
            ==> base_name(s) == s.subrange(i + 1, s.len() as int),
    decreases s.len(),
{
    if s.len() > 0 {
        lemma_base_name(s.drop_last());
        if !s.contains('/') {
            assert(!s.drop_last().contains('/')) by {
                if s.drop_last().contains('/') {
                    let k = choose|k: int| 0 <= k < s.drop_last().len() && s.drop_last()[k] == '/';
                    assert(s[k] == '/');
                }
            }
            assert(s.drop_last().push(s.last()) =~= s);
        }
        assert forall|i: int| 0 <= i < s.len() && s[i] == '/' && (forall|j: int| i < j < s.len() ==> s[j] != '/')
            implies base_name(s) == s.subrange(i + 1, s.len() as int) by {
            if i == s.len() - 1 {
                assert(s.subrange(i + 1, s.len() as int) =~= Seq::<char>::empty());
            } else {
                assert(s.drop_last()[i] == '/');
                assert(s.drop_last().subrange(i + 1, s.drop_last().len() as int).push(s.last()) =~= s.subrange(i + 1, s.len() as int));
            }
        }
    }
}

/// The Rust value name of a (possibly qualified) name.
pub fn rust_value_name(name: &[char]) -> (r: String)
    ensures
        r@ == rust_value_name_spec(name@),
{
    proof { lemma_base_name(name@); }
    let _n = name.len();
    let start: usize = match rfind_char(name, '/') {
        Some(i) => i + 1,
        None => 0,
    };
    let ghost base = name@.subrange(start as int, name@.len() as int);
    proof {
        if start == 0 {
            assert(base =~= name@);
        }
    }
    let mut out: Vec<char> = Vec::new();
    let mut i = start;
    while i < name.len()
        invariant
            start <= i <= name@.len(),
            out@ == rust_chars(name@.subrange(start as int, i as int)),
        decreases name@.len() - i,
    {
        assert(name@.subrange(start as int, i + 1).drop_last() =~= name@.subrange(start as int, i as int));
        push_rust_char(&mut out, name[i]);
        i = i + 1;
    }
    if out.len() == 0 {
        return String::from_str("v");
    }
    if '0' <= out[0] && out[0] <= '9' {
        let mut v: Vec<char> = Vec::new();
        v.push('_');
        v.append(&mut out);
        return string_from_chars(v.as_slice());
    }
    string_from_chars(out.as_slice())
}

/// The Rust value name of a string.
pub fn rust_value_name_of(name: &String) -> (r: String)
    ensures
        r@ == rust_value_name_spec(name@),
{
    let cs = string_chars(name);
    rust_value_name(cs.as_slice())
}

/// The Rust type name of a kebab- or snake-case name: parts split at '-'
/// and '_', each with its first character in uppercase, joined.
pub open spec fn rust_type_name_spec(s: Seq<char>, at_start: bool) -> Seq<char>
    decreases s.len(),
{
    if s.len() == 0 { Seq::empty() }
    else if s[0] == '-' || s[0] == '_' { rust_type_name_spec(s.drop_first(), true) }
    else { seq![if at_start { upper(s[0]) } else { s[0] }] + rust_type_name_spec(s.drop_first(), false) }
}

/// The Rust type name of a name.
pub fn rust_type_name(name: &String) -> (r: String)
    ensures
        r@ == rust_type_name_spec(name@, true),
{
    let cs = string_chars(name);
    let mut out: Vec<char> = Vec::new();
    let mut at_start = true;
    let mut i: usize = 0;
    assert(cs@.subrange(0, cs@.len() as int) =~= cs@);
    while i < cs.len()
        invariant
            i <= cs@.len(),
            out@ + rust_type_name_spec(cs@.subrange(i as int, cs@.len() as int), at_start)
                == rust_type_name_spec(cs@, true),
        decreases cs@.len() - i,
    {
        let ghost rest = cs@.subrange(i as int, cs@.len() as int);
        assert(rest.drop_first() =~= cs@.subrange(i + 1, cs@.len() as int));
        let c = cs[i];
        if c == '-' || c == '_' {
            at_start = true;
        } else {
            let d = if at_start { to_upper(c) } else { c };
            let ghost before = out@;
            out.push(d);
            assert(out@ + rust_type_name_spec(rest.drop_first(), false) =~= before + rust_type_name_spec(rest, at_start));
            at_start = false;
        }
        i = i + 1;
    }
    assert(cs@.subrange(cs@.len() as int, cs@.len() as int).len() == 0);
    assert(out@ =~= rust_type_name_spec(cs@, true));
    string_from_chars(out.as_slice())
}


// ---------------------------------------------------------------------------
// Expressions

/// What a `for` loop iterates over.
#[derive(Debug)]
pub enum Iterable {
    Range(RangeExpr),
    Expr(Box<Expr>),
}

/// An expression. Float literals keep their spelling; `Assign` is `let!`.
#[derive(Debug)]
pub enum Expr {
    Int(i64, Span),
    Float(String, Span),
    Str(String, Span),
    Bool(bool, Span),
    Unit(Span),
    SymbolLit(String, Span),
    Var(String, Span),
    Ascribe { expr: Box<Expr>, ann: Ty, span: Span },
    Cast { expr: Box<Expr>, ann: Ty, span: Span },
    VecLit { elems: Vec<Expr>, span: Span, ann: Option<Ty> },
    Pair { key: Box<Expr>, val: Box<Expr>, span: Span },
    Let { bindings: Vec<LetBinding>, body: Box<Expr>, span: Span },
    Lambda { params: Vec<Param>, body: Box<Expr>, span: Span },
    CallDyn { func: Box<Expr>, args: Vec<Expr>, span: Span },
    MethodCall { base: Box<Expr>, method: String, args: Vec<Expr>, span: Span },
    Do { exprs: Vec<Expr>, span: Span },
    If { cond: Box<Expr>, then_br: Box<Expr>, else_br: Option<Box<Expr>>, span: Span },
    Loop { body: Box<Expr>, span: Span },
    While { cond: Box<Expr>, body: Box<Expr>, span: Span },
    Assign { name: String, expr: Box<Expr>, span: Span },
    For { var: String, iter: Iterable, body: Box<Expr>, span: Span },
    Break { value: Option<Box<Expr>>, span: Span },
    Continue { span: Span },
    Field { base: Box<Expr>, field: String, span: Span },
    Match { scrutinee: Box<Expr>, arms: Vec<MatchArm>, span: Span },
    Call { op: String, args: Vec<Expr>, span: Span },
    SetLit { elems: Vec<Expr>, span: Span, ann: Option<Ty> },
    MapLit { kind: MapKind, entries: Vec<(Expr, Expr)>, span: Span, ann: Option<(Ty, Ty)> },
}

/// A numeric range `(range start end [step])` or `(range-incl ...)`.
#[derive(Debug)]
pub struct RangeExpr {
    pub start: Box<Expr>,
    pub end: Box<Expr>,
    pub step: Option<Box<Expr>>,
    pub inclusive: bool,
    pub span: Span,
}

/// One `let` binding.
#[derive(Debug)]
pub struct LetBinding {
    pub name: String,
    pub rust_name: String,
    pub ann: Option<Ty>,
    pub expr: Expr,
    pub span: Span,
}

/// One arm of a `case`.
#[derive(Debug)]
pub struct MatchArm {
    pub pat: MatchPat,
    pub body: Expr,
    pub span: Span,
}

/// A function definition.
#[derive(Debug, Clone)]
pub struct FnDef {
    pub name: String,
    pub rust_name: String,
    pub params: Vec<Param>,
    pub body: Expr,
    pub span: Span,
    pub specialize: bool,
    pub exported: bool,
    pub extern_: bool,
    pub extern_ret: Option<Ty>,
}

/// An inline function definition (`defin`), substituted at call sites.
#[derive(Debug, Clone)]
pub struct InlineDef {
    pub name: String,
    pub rust_name: String,
    pub params: Vec<Param>,
    pub body: Expr,
    pub span: Span,
}

/// A global value definition (`def`).
#[derive(Debug, Clone)]
pub struct Def {
    pub name: String,
    pub rust_name: String,
    pub ann: Option<Ty>,
    pub expr: Expr,
    pub span: Span,
}

/// A top-level form.
#[derive(Debug, Clone)]
pub enum Top {
    Struct(StructDef),
    Union(UnionDef),
    Func(FnDef),
    Inline(InlineDef),
    Def(Def),
    Use(UseDecl),
}

/// Two optional types are the same.
pub open spec fn opt_ty_same(a: Option<Ty>, b: Option<Ty>) -> bool {
    match (a, b) {
        (Some(x), Some(y)) => ty_same(x, y),
        (None, None) => true,
        _ => false,
    }
}

/// Two parameters are the same: names spelled the same, same annotation
/// and span.
pub open spec fn param_same(a: Param, b: Param) -> bool {
    a.name@ == b.name@ && a.rust_name@ == b.rust_name@ && opt_ty_same(a.ann, b.ann) && a.span == b.span
}

/// Two `case` patterns are the same.
pub open spec fn pat_same(a: MatchPat, b: MatchPat) -> bool {
    match (a, b) {
        (MatchPat::Variant { name: n1, bindings: b1, span: s1 }, MatchPat::Variant { name: n2, bindings: b2, span: s2 }) =>
            n1@ == n2@ && s1 == s2 && b1@.len() == b2@.len() && forall|i: int| 0 <= i < b1@.len() ==>
                (#[trigger] b1@[i]).0@ == b2@[i].0@ && b1@[i].1@ == b2@[i].1@ && b1@[i].2 == b2@[i].2,
        (MatchPat::Wildcard(s1), MatchPat::Wildcard(s2)) => s1 == s2,
        _ => false,
    }
}

/// Two expression trees are the same: same shapes and spans, names and
/// literals spelled the same, types the same.
pub open spec fn expr_same(a: Expr, b: Expr) -> bool
    decreases a,
{
    match (a, b) {
        (Expr::Int(x, s1), Expr::Int(y, s2)) => x == y && s1 == s2,
        (Expr::Float(x, s1), Expr::Float(y, s2)) => x@ == y@ && s1 == s2,
        (Expr::Str(x, s1), Expr::Str(y, s2)) => x@ == y@ && s1 == s2,
        (Expr::Bool(x, s1), Expr::Bool(y, s2)) => x == y && s1 == s2,
        (Expr::Unit(s1), Expr::Unit(s2)) => s1 == s2,
        (Expr::SymbolLit(x, s1), Expr::SymbolLit(y, s2)) => x@ == y@ && s1 == s2,
        (Expr::Var(x, s1), Expr::Var(y, s2)) => x@ == y@ && s1 == s2,
        (Expr::Ascribe { expr: x, ann: t1, span: s1 }, Expr::Ascribe { expr: y, ann: t2, span: s2 }) =>
            expr_same(*x, *y) && ty_same(t1, t2) && s1 == s2,
        (Expr::Cast { expr: x, ann: t1, span: s1 }, Expr::Cast { expr: y, ann: t2, span: s2 }) =>
            expr_same(*x, *y) && ty_same(t1, t2) && s1 == s2,
        (Expr::VecLit { elems: x, span: s1, ann: t1 }, Expr::VecLit { elems: y, span: s2, ann: t2 }) =>
            s1 == s2 && opt_ty_same(t1, t2) && x@.len() == y@.len()
            && forall|i: int| 0 <= i < x@.len() ==> expr_same(#[trigger] x@[i], y@[i]),
        (Expr::SetLit { elems: x, span: s1, ann: t1 }, Expr::SetLit { elems: y, span: s2, ann: t2 }) =>
            s1 == s2 && opt_ty_same(t1, t2) && x@.len() == y@.len()
            && forall|i: int| 0 <= i < x@.len() ==> expr_same(#[trigger] x@[i], y@[i]),
        (Expr::Do { exprs: x, span: s1 }, Expr::Do { exprs: y, span: s2 }) =>
            s1 == s2 && x@.len() == y@.len() && forall|i: int| 0 <= i < x@.len() ==> expr_same(#[trigger] x@[i], y@[i]),
        (Expr::Call { op: o1, args: x, span: s1 }, Expr::Call { op: o2, args: y, span: s2 }) =>
            o1@ == o2@ && s1 == s2 && x@.len() == y@.len()
            && forall|i: int| 0 <= i < x@.len() ==> expr_same(#[trigger] x@[i], y@[i]),
        (Expr::Pair { key: k1, val: v1, span: s1 }, Expr::Pair { key: k2, val: v2, span: s2 }) =>
            expr_same(*k1, *k2) && expr_same(*v1, *v2) && s1 == s2,
        (Expr::Let { bindings: x, body: b1, span: s1 }, Expr::Let { bindings: y, body: b2, span: s2 }) =>
            expr_same(*b1, *b2) && s1 == s2 && x@.len() == y@.len() && forall|i: int| 0 <= i < x@.len() ==> {
                &&& (#[trigger] x@[i]).name@ == y@[i].name@
                &&& x@[i].rust_name@ == y@[i].rust_name@
                &&& opt_ty_same(x@[i].ann, y@[i].ann)
                &&& expr_same(x@[i].expr, y@[i].expr)
                &&& x@[i].span == y@[i].span
            },
        (Expr::Lambda { params: p1, body: b1, span: s1 }, Expr::Lambda { params: p2, body: b2, span: s2 }) =>
            expr_same(*b1, *b2) && s1 == s2 && p1@.len() == p2@.len()
            && forall|i: int| 0 <= i < p1@.len() ==> param_same(#[trigger] p1@[i], p2@[i]),
        (Expr::CallDyn { func: f1, args: x, span: s1 }, Expr::CallDyn { func: f2, args: y, span: s2 }) =>
            expr_same(*f1, *f2) && s1 == s2 && x@.len() == y@.len()
            && forall|i: int| 0 <= i < x@.len() ==> expr_same(#[trigger] x@[i], y@[i]),
        (Expr::MethodCall { base: b1, method: m1, args: x, span: s1 }, Expr::MethodCall { base: b2, method: m2, args: y, span: s2 }) =>
            expr_same(*b1, *b2) && m1@ == m2@ && s1 == s2 && x@.len() == y@.len()
            && forall|i: int| 0 <= i < x@.len() ==> expr_same(#[trigger] x@[i], y@[i]),
        (Expr::If { cond: c1, then_br: t1, else_br: e1, span: s1 }, Expr::If { cond: c2, then_br: t2, else_br: e2, span: s2 }) =>
            expr_same(*c1, *c2) && expr_same(*t1, *t2) && s1 == s2 && match (e1, e2) {
                (Some(x), Some(y)) => expr_same(*x, *y),
                (None, None) => true,
                _ => false,
            },
        (Expr::Loop { body: b1, span: s1 }, Expr::Loop { body: b2, span: s2 }) => expr_same(*b1, *b2) && s1 == s2,
        (Expr::While { cond: c1, body: b1, span: s1 }, Expr::While { cond: c2, body: b2, span: s2 }) =>
            expr_same(*c1, *c2) && expr_same(*b1, *b2) && s1 == s2,
        (Expr::Assign { name: n1, expr: x, span: s1 }, Expr::Assign { name: n2, expr: y, span: s2 }) =>
            n1@ == n2@ && expr_same(*x, *y) && s1 == s2,
        (Expr::For { var: v1, iter: i1, body: b1, span: s1 }, Expr::For { var: v2, iter: i2, body: b2, span: s2 }) =>
            v1@ == v2@ && expr_same(*b1, *b2) && s1 == s2 && match (i1, i2) {
                (Iterable::Range(r1), Iterable::Range(r2)) => expr_same(*r1.start, *r2.start)
                    && expr_same(*r1.end, *r2.end) && r1.inclusive == r2.inclusive && r1.span == r2.span
                    && match (r1.step, r2.step) {
                        (Some(x), Some(y)) => expr_same(*x, *y),
                        (None, None) => true,
                        _ => false,
                    },
                (Iterable::Expr(x), Iterable::Expr(y)) => expr_same(*x, *y),
                _ => false,
            },
        (Expr::Break { value: v1, span: s1 }, Expr::Break { value: v2, span: s2 }) => s1 == s2 && match (v1, v2) {
            (Some(x), Some(y)) => expr_same(*x, *y),
            (None, None) => true,
            _ => false,
        },
        (Expr::Continue { span: s1 }, Expr::Continue { span: s2 }) => s1 == s2,
        (Expr::Field { base: b1, field: f1, span: s1 }, Expr::Field { base: b2, field: f2, span: s2 }) =>
            expr_same(*b1, *b2) && f1@ == f2@ && s1 == s2,
        (Expr::Match { scrutinee: c1, arms: x, span: s1 }, Expr::Match { scrutinee: c2, arms: y, span: s2 }) =>
            expr_same(*c1, *c2) && s1 == s2 && x@.len() == y@.len() && forall|i: int| 0 <= i < x@.len() ==>
                pat_same((#[trigger] x@[i]).pat, y@[i].pat) && expr_same(x@[i].body, y@[i].body) && x@[i].span == y@[i].span,
        (Expr::MapLit { kind: k1, entries: x, span: s1, ann: t1 }, Expr::MapLit { kind: k2, entries: y, span: s2, ann: t2 }) =>
            k1 == k2 && s1 == s2 && x@.len() == y@.len()
            && (forall|i: int| 0 <= i < x@.len() ==> expr_same((#[trigger] x@[i]).0, y@[i].0) && expr_same(x@[i].1, y@[i].1))
            && match (t1, t2) {
                (Some((a1, b1)), Some((a2, b2))) => ty_same(a1, a2) && ty_same(b1, b2),
                (None, None) => true,
                _ => false,
            },
        _ => false,
    }
}

fn clone_opt_ty(t: &Option<Ty>) -> (r: Option<Ty>)
    ensures
        opt_ty_same(r, *t),
{
    match t {
        Some(t) => Some(clone_ty(t)),
        None => None,
    }
}

/// Copies of parameters.
pub fn clone_params(xs: &Vec<Param>) -> (out: Vec<Param>)
    ensures
        out@.len() == xs@.len(),
        forall|i: int| 0 <= i < xs@.len() ==> param_same(#[trigger] out@[i], xs@[i]),
{
    let mut out: Vec<Param> = Vec::new();
    let mut i: usize = 0;
    while i < xs.len()
        invariant
            i <= xs@.len(),
            out@.len() == i,
            forall|j: int| 0 <= j < i ==> param_same(#[trigger] out@[j], xs@[j]),
        decreases xs@.len() - i,
    {
        let p = &xs[i];
        out.push(Param { name: copy(&p.name), rust_name: copy(&p.rust_name), ann: clone_opt_ty(&p.ann), span: p.span });
        i = i + 1;
    }
    out
}

/// A copy of a `case` pattern.
pub fn clone_pat(p: &MatchPat) -> (r: MatchPat)
    ensures
        pat_same(r, *p),
{
    match p {
        MatchPat::Variant { name, bindings, span } => {
            let mut out: Vec<(String, String, Span)> = Vec::new();
            let mut i: usize = 0;
            while i < bindings.len()
                invariant
                    i <= bindings@.len(),
                    out@.len() == i,
                    forall|j: int| 0 <= j < i ==> (#[trigger] out@[j]).0@ == bindings@[j].0@
                        && out@[j].1@ == bindings@[j].1@ && out@[j].2 == bindings@[j].2,
                decreases bindings@.len() - i,
            {
                let b = &bindings[i];
                out.push((copy(&b.0), copy(&b.1), b.2));
                i = i + 1;
            }
            MatchPat::Variant { name: copy(name), bindings: out, span: *span }
        },
        MatchPat::Wildcard(sp) => MatchPat::Wildcard(*sp),
    }
}

/// Copies of a sequence of expressions.
pub fn clone_exprs(xs: &Vec<Expr>) -> (out: Vec<Expr>)
    ensures
        out@.len() == xs@.len(),
        forall|i: int| 0 <= i < xs@.len() ==> expr_same(#[trigger] out@[i], xs@[i]),
    decreases xs,
{
    let mut out: Vec<Expr> = Vec::new();
    let mut i: usize = 0;
    while i < xs.len()
        invariant
            i <= xs@.len(),
            out@.len() == i,
            forall|j: int| 0 <= j < i ==> expr_same(#[trigger] out@[j], xs@[j]),
        decreases xs@.len() - i,
    {
        out.push(clone_expr(&xs[i]));
        i = i + 1;
    }
    out
}

fn clone_bindings(xs: &Vec<LetBinding>) -> (out: Vec<LetBinding>)
    ensures
        out@.len() == xs@.len(),
        forall|i: int| 0 <= i < xs@.len() ==> {
            &&& (#[trigger] out@[i]).name@ == xs@[i].name@
            &&& out@[i].rust_name@ == xs@[i].rust_name@
            &&& opt_ty_same(out@[i].ann, xs@[i].ann)
            &&& expr_same(out@[i].expr, xs@[i].expr)
            &&& out@[i].span == xs@[i].span
        },
    decreases xs,
{
    let mut out: Vec<LetBinding> = Vec::new();
    let mut i: usize = 0;
    while i < xs.len()
        invariant
            i <= xs@.len(),
            out@.len() == i,
            forall|j: int| 0 <= j < i ==> {
                &&& (#[trigger] out@[j]).name@ == xs@[j].name@
                &&& out@[j].rust_name@ == xs@[j].rust_name@
                &&& opt_ty_same(out@[j].ann, xs@[j].ann)
                &&& expr_same(out@[j].expr, xs@[j].expr)
                &&& out@[j].span == xs@[j].span
            },
        decreases xs@.len() - i,
    {
        let b = &xs[i];
        out.push(LetBinding {
            name: copy(&b.name),
            rust_name: copy(&b.rust_name),
            ann: clone_opt_ty(&b.ann),
            expr: clone_expr(&b.expr),
            span: b.span,
        });
        i = i + 1;
    }
    out
}

fn clone_arms(xs: &Vec<MatchArm>) -> (out: Vec<MatchArm>)
    ensures
        out@.len() == xs@.len(),
        forall|i: int| 0 <= i < xs@.len() ==> pat_same((#[trigger] out@[i]).pat, xs@[i].pat)
            && expr_same(out@[i].body, xs@[i].body) && out@[i].span == xs@[i].span,
    decreases xs,
{
    let mut out: Vec<MatchArm> = Vec::new();
    let mut i: usize = 0;
    while i < xs.len()
        invariant
            i <= xs@.len(),
            out@.len() == i,
            forall|j: int| 0 <= j < i ==> pat_same((#[trigger] out@[j]).pat, xs@[j].pat)
                && expr_same(out@[j].body, xs@[j].body) && out@[j].span == xs@[j].span,
        decreases xs@.len() - i,
    {
        let a = &xs[i];
        out.push(MatchArm { pat: clone_pat(&a.pat), body: clone_expr(&a.body), span: a.span });
        i = i + 1;
    }
    out
}

fn clone_entries(xs: &Vec<(Expr, Expr)>) -> (out: Vec<(Expr, Expr)>)
    ensures
        out@.len() == xs@.len(),
        forall|i: int| 0 <= i < xs@.len() ==> expr_same((#[trigger] out@[i]).0, xs@[i].0) && expr_same(out@[i].1, xs@[i].1),
    decreases xs,
{
    let mut out: Vec<(Expr, Expr)> = Vec::new();
    let mut i: usize = 0;
    while i < xs.len()
        invariant
            i <= xs@.len(),
            out@.len() == i,
            forall|j: int| 0 <= j < i ==> expr_same((#[trigger] out@[j]).0, xs@[j].0) && expr_same(out@[j].1, xs@[j].1),
        decreases xs@.len() - i,
    {
        let k = clone_expr(&xs[i].0);
        let v = clone_expr(&xs[i].1);
        out.push((k, v));
        i = i + 1;
    }
    out
}

fn clone_opt_box(e: &Option<Box<Expr>>) -> (r: Option<Box<Expr>>)
    ensures
        match (r, *e) {
            (Some(x), Some(y)) => expr_same(*x, *y),
            (None, None) => true,
            _ => false,
        },
    decreases e,
{
    match e {
        Some(b) => Some(Box::new(clone_expr(b))),
        None => None,
    }
}

/// A copy of a range.
pub fn clone_range(r: &RangeExpr) -> (out: RangeExpr)
    ensures
        expr_same(*out.start, *r.start) && expr_same(*out.end, *r.end) && out.inclusive == r.inclusive
            && out.span == r.span && match (out.step, r.step) {
                (Some(x), Some(y)) => expr_same(*x, *y),
                (None, None) => true,
                _ => false,
            },
    decreases r,
{
    RangeExpr {
        start: Box::new(clone_expr(&r.start)),
        end: Box::new(clone_expr(&r.end)),
        step: clone_opt_box(&r.step),
        inclusive: r.inclusive,
        span: r.span,
    }
}

/// A copy of an iterable.
pub fn clone_iterable(it: &Iterable) -> (out: Iterable)
    ensures
        match (out, *it) {
            (Iterable::Range(r1), Iterable::Range(r2)) => expr_same(*r1.start, *r2.start)
                && expr_same(*r1.end, *r2.end) && r1.inclusive == r2.inclusive && r1.span == r2.span
                && match (r1.step, r2.step) {
                    (Some(x), Some(y)) => expr_same(*x, *y),
                    (None, None) => true,
                    _ => false,
                },
            (Iterable::Expr(x), Iterable::Expr(y)) => expr_same(*x, *y),
            _ => false,
        },
    decreases it,
{
    match it {
        Iterable::Range(r) => Iterable::Range(clone_range(r)),
        Iterable::Expr(e) => Iterable::Expr(Box::new(clone_expr(e))),
    }
}

/// A copy of an expression tree.
pub fn clone_expr(e: &Expr) -> (r: Expr)
    ensures
        expr_same(r, *e),
        is_leaf(*e) ==> is_leaf(r),
    decreases e,
{
    match e {
        Expr::Int(v, sp) => Expr::Int(*v, *sp),
        Expr::Float(v, sp) => Expr::Float(copy(v), *sp),
        Expr::Str(v, sp) => Expr::Str(copy(v), *sp),
        Expr::Bool(v, sp) => Expr::Bool(*v, *sp),
        Expr::Unit(sp) => Expr::Unit(*sp),
        Expr::SymbolLit(v, sp) => Expr::SymbolLit(copy(v), *sp),
        Expr::Var(v, sp) => Expr::Var(copy(v), *sp),
        Expr::Ascribe { expr, ann, span } => Expr::Ascribe { expr: Box::new(clone_expr(expr)), ann: clone_ty(ann), span: *span },
        Expr::Cast { expr, ann, span } => Expr::Cast { expr: Box::new(clone_expr(expr)), ann: clone_ty(ann), span: *span },
        Expr::VecLit { elems, span, ann } => Expr::VecLit { elems: clone_exprs(elems), span: *span, ann: clone_opt_ty(ann) },
        Expr::Pair { key, val, span } => Expr::Pair { key: Box::new(clone_expr(key)), val: Box::new(clone_expr(val)), span: *span },
        Expr::Let { bindings, body, span } => Expr::Let { bindings: clone_bindings(bindings), body: Box::new(clone_expr(body)), span: *span },
        Expr::Lambda { params, body, span } => Expr::Lambda { params: clone_params(params), body: Box::new(clone_expr(body)), span: *span },
        Expr::CallDyn { func, args, span } => Expr::CallDyn { func: Box::new(clone_expr(func)), args: clone_exprs(args), span: *span },
        Expr::MethodCall { base, method, args, span } => Expr::MethodCall { base: Box::new(clone_expr(base)), method: copy(method), args: clone_exprs(args), span: *span },
        Expr::Do { exprs, span } => Expr::Do { exprs: clone_exprs(exprs), span: *span },
        Expr::If { cond, then_br, else_br, span } => Expr::If { cond: Box::new(clone_expr(cond)), then_br: Box::new(clone_expr(then_br)), else_br: clone_opt_box(else_br), span: *span },
        Expr::Loop { body, span } => Expr::Loop { body: Box::new(clone_expr(body)), span: *span },
        Expr::While { cond, body, span } => Expr::While { cond: Box::new(clone_expr(cond)), body: Box::new(clone_expr(body)), span: *span },
        Expr::Assign { name, expr, span } => Expr::Assign { name: copy(name), expr: Box::new(clone_expr(expr)), span: *span },
        Expr::For { var, iter, body, span } => Expr::For { var: copy(var), iter: clone_iterable(iter), body: Box::new(clone_expr(body)), span: *span },
        Expr::Break { value, span } => Expr::Break { value: clone_opt_box(value), span: *span },
        Expr::Continue { span } => Expr::Continue { span: *span },
        Expr::Field { base, field, span } => Expr::Field { base: Box::new(clone_expr(base)), field: copy(field), span: *span },
        Expr::Match { scrutinee, arms, span } => Expr::Match { scrutinee: Box::new(clone_expr(scrutinee)), arms: clone_arms(arms), span: *span },
        Expr::Call { op, args, span } => Expr::Call { op: copy(op), args: clone_exprs(args), span: *span },
        Expr::SetLit { elems, span, ann } => Expr::SetLit { elems: clone_exprs(elems), span: *span, ann: clone_opt_ty(ann) },
        Expr::MapLit { kind, entries, span, ann } => Expr::MapLit {
            kind: *kind,
            entries: clone_entries(entries),
            span: *span,
            ann: match ann { Some((a, b)) => Some((clone_ty(a), clone_ty(b))), None => None },
        },
    }
}

impl Clone for Expr {
    fn clone(&self) -> (r: Expr) {
        clone_expr(self)
    }
}

impl Clone for LetBinding {
    fn clone(&self) -> (r: LetBinding) {
        LetBinding {
            name: copy(&self.name),
            rust_name: copy(&self.rust_name),
            ann: clone_opt_ty(&self.ann),
            expr: clone_expr(&self.expr),
            span: self.span,
        }
    }
}

impl Clone for MatchArm {
    fn clone(&self) -> (r: MatchArm) {
        MatchArm { pat: clone_pat(&self.pat), body: clone_expr(&self.body), span: self.span }
    }
}

impl Clone for RangeExpr {
    fn clone(&self) -> (r: RangeExpr) {
        clone_range(self)
    }
}

impl Clone for Iterable {
    fn clone(&self) -> (r: Iterable) {
        clone_iterable(self)
    }
}

/// The span recorded in an expression.
pub open spec fn spec_expr_span(e: Expr) -> Span {
    match e {
        Expr::Int(_, s) => s,
        Expr::Float(_, s) => s,
        Expr::Str(_, s) => s,
        Expr::Bool(_, s) => s,
        Expr::Unit(s) => s,
        Expr::SymbolLit(_, s) => s,
        Expr::Var(_, s) => s,
        Expr::Ascribe { span, .. } => span,
        Expr::Cast { span, .. } => span,
        Expr::VecLit { span, .. } => span,
        Expr::Pair { span, .. } => span,
        Expr::Let { span, .. } => span,
        Expr::Lambda { span, .. } => span,
        Expr::CallDyn { span, .. } => span,
        Expr::MethodCall { span, .. } => span,
        Expr::Do { span, .. } => span,
        Expr::If { span, .. } => span,
        Expr::Loop { span, .. } => span,
        Expr::While { span, .. } => span,
        Expr::For { span, .. } => span,
        Expr::Assign { span, .. } => span,
        Expr::Break { span, .. } => span,
        Expr::Continue { span } => span,
        Expr::Field { span, .. } => span,
        Expr::Match { span, .. } => span,
        Expr::Call { span, .. } => span,
        Expr::SetLit { span, .. } => span,
        Expr::MapLit { span, .. } => span,
    }
}

impl Expr {
    /// The span recorded in this expression.
    pub fn span(&self) -> (s: Span)
        ensures
            s == spec_expr_span(*self),
    {
        match self {
            Expr::Int(_, s) => *s,
            Expr::Float(_, s) => *s,
            Expr::Str(_, s) => *s,
            Expr::Bool(_, s) => *s,
            Expr::Unit(s) => *s,
            Expr::SymbolLit(_, s) => *s,
            Expr::Var(_, s) => *s,
            Expr::Ascribe { span, .. } => *span,
            Expr::Cast { span, .. } => *span,
            Expr::VecLit { span, .. } => *span,
            Expr::Pair { span, .. } => *span,
            Expr::Let { span, .. } => *span,
            Expr::Lambda { span, .. } => *span,
            Expr::CallDyn { span, .. } => *span,
            Expr::MethodCall { span, .. } => *span,
            Expr::Do { span, .. } => *span,
            Expr::If { span, .. } => *span,
            Expr::Loop { span, .. } => *span,
            Expr::While { span, .. } => *span,
            Expr::For { span, .. } => *span,
            Expr::Assign { span, .. } => *span,
            Expr::Break { span, .. } => *span,
            Expr::Continue { span } => *span,
            Expr::Field { span, .. } => *span,
            Expr::Match { span, .. } => *span,
            Expr::Call { span, .. } => *span,
            Expr::SetLit { span, .. } => *span,
            Expr::MapLit { span, .. } => *span,
        }
    }
}

// ---------------------------------------------------------------------------
// Calls by name

/// Whether `e` holds, at any depth, a call whose head is one of `names`.
pub open spec fn calls_any(e: Expr, names: Seq<Seq<char>>) -> bool
    decreases e,
{
    match e {
        Expr::Call { op, args, .. } => names.contains(op@) || calls_any_of(args@, names),
        Expr::Ascribe { expr, .. } => calls_any(*expr, names),
        Expr::Cast { expr, .. } => calls_any(*expr, names),
        Expr::VecLit { elems, .. } => calls_any_of(elems@, names),
        Expr::SetLit { elems, .. } => calls_any_of(elems@, names),
        Expr::Do { exprs, .. } => calls_any_of(exprs@, names),
        Expr::Pair { key, val, .. } => calls_any(*key, names) || calls_any(*val, names),
        Expr::Let { bindings, body, .. } => bindings_call(bindings@, names) || calls_any(*body, names),
        Expr::Lambda { body, .. } => calls_any(*body, names),
        Expr::CallDyn { func, args, .. } => calls_any(*func, names) || calls_any_of(args@, names),
        Expr::MethodCall { base, args, .. } => calls_any(*base, names) || calls_any_of(args@, names),
        Expr::If { cond, then_br, else_br, .. } => calls_any(*cond, names) || calls_any(*then_br, names)
            || match else_br {
                Some(b) => calls_any(*b, names),
                None => false,
            },
        Expr::Loop { body, .. } => calls_any(*body, names),
        Expr::While { cond, body, .. } => calls_any(*cond, names) || calls_any(*body, names),
        Expr::Assign { expr, .. } => calls_any(*expr, names),
        Expr::For { iter, body, .. } => calls_any(*body, names) || match iter {
            Iterable::Range(r) => calls_any(*r.start, names) || calls_any(*r.end, names)
                || match r.step {
                    Some(st) => calls_any(*st, names),
                    None => false,
                },
            Iterable::Expr(x) => calls_any(*x, names),
        },
        Expr::Break { value, .. } => match value {
            Some(v) => calls_any(*v, names),
            None => false,
        },
        Expr::Field { base, .. } => calls_any(*base, names),
        Expr::Match { scrutinee, arms, .. } => calls_any(*scrutinee, names) || arms_call(arms@, names),
        Expr::MapLit { entries, .. } => entries_call(entries@, names),
        _ => false,
    }
}

/// Whether one of the expressions `es` holds a call to one of `names`.
pub open spec fn calls_any_of(es: Seq<Expr>, names: Seq<Seq<char>>) -> bool
    decreases es,
{
    es.len() > 0 && (calls_any_of(es.drop_last(), names) || calls_any(es.last(), names))
}

/// Whether the value of one of the bindings `bs` holds a call to one of `names`.
pub open spec fn bindings_call(bs: Seq<LetBinding>, names: Seq<Seq<char>>) -> bool
    decreases bs,
{
    bs.len() > 0 && (bindings_call(bs.drop_last(), names) || calls_any(bs.last().expr, names))
}

/// Whether the body of one of the arms holds a call to one of `names`.
pub open spec fn arms_call(arms: Seq<MatchArm>, names: Seq<Seq<char>>) -> bool
    decreases arms,
{
    arms.len() > 0 && (arms_call(arms.drop_last(), names) || calls_any(arms.last().body, names))
}

/// Whether a key or a value of one of the entries holds a call to one of `names`.
pub open spec fn entries_call(es: Seq<(Expr, Expr)>, names: Seq<Seq<char>>) -> bool
    decreases es,
{
    es.len() > 0 && (entries_call(es.drop_last(), names) || calls_any(es.last().0, names)
        || calls_any(es.last().1, names))
}

/// Expressions none of which calls one of `names` hold no such call together.
pub proof fn lemma_calls_any_of(es: Seq<Expr>, names: Seq<Seq<char>>)
    requires
        forall|i: int| 0 <= i < es.len() ==> !calls_any(#[trigger] es[i], names),
    ensures
        !calls_any_of(es, names),
    decreases es.len(),
{
    if es.len() > 0 {
        assert forall|i: int| 0 <= i < es.drop_last().len() implies !calls_any(#[trigger] es.drop_last()[i], names) by {
            assert(es.drop_last()[i] == es[i]);
        }
        lemma_calls_any_of(es.drop_last(), names);
        assert(!calls_any(es[es.len() - 1], names));
    }
}

/// Bindings none of whose values calls one of `names` hold no such call together.
pub proof fn lemma_bindings_call(bs: Seq<LetBinding>, names: Seq<Seq<char>>)
    requires
        forall|i: int| 0 <= i < bs.len() ==> !calls_any(#[trigger] bs[i].expr, names),
    ensures
        !bindings_call(bs, names),
    decreases bs.len(),
{
    if bs.len() > 0 {
        assert forall|i: int| 0 <= i < bs.drop_last().len() implies !calls_any(#[trigger] bs.drop_last()[i].expr, names) by {
            assert(bs.drop_last()[i] == bs[i]);
        }
        lemma_bindings_call(bs.drop_last(), names);
        assert(!calls_any(bs[bs.len() - 1].expr, names));
    }
}

/// Arms none of whose bodies calls one of `names` hold no such call together.
pub proof fn lemma_arms_call(arms: Seq<MatchArm>, names: Seq<Seq<char>>)
    requires
        forall|i: int| 0 <= i < arms.len() ==> !calls_any(#[trigger] arms[i].body, names),
    ensures
        !arms_call(arms, names),
    decreases arms.len(),
{
    if arms.len() > 0 {
        assert forall|i: int| 0 <= i < arms.drop_last().len() implies !calls_any(#[trigger] arms.drop_last()[i].body, names) by {
            assert(arms.drop_last()[i] == arms[i]);
        }
        lemma_arms_call(arms.drop_last(), names);
        assert(!calls_any(arms[arms.len() - 1].body, names));
    }
}

/// Entries no key or value of which calls one of `names` hold no such call together.
pub proof fn lemma_entries_call(es: Seq<(Expr, Expr)>, names: Seq<Seq<char>>)
    requires
        forall|i: int| 0 <= i < es.len() ==> !calls_any(#[trigger] es[i].0, names) && !calls_any(es[i].1, names),
    ensures
        !entries_call(es, names),
    decreases es.len(),
{
    if es.len() > 0 {
        assert forall|i: int| 0 <= i < es.drop_last().len() implies !calls_any(#[trigger] es.drop_last()[i].0, names)
            && !calls_any(es.drop_last()[i].1, names) by {
            assert(es.drop_last()[i] == es[i]);
        }
        lemma_entries_call(es.drop_last(), names);
        assert(!calls_any(es[es.len() - 1].0, names));
    }
}

/// An expression without sub-expressions.
pub open spec fn is_leaf(e: Expr) -> bool {
    e is Int || e is Float || e is Str || e is Bool || e is Unit || e is SymbolLit || e is Var || e is Continue
}

/// Expressions that together hold no call to one of `names` hold none each.
pub proof fn lemma_calls_any_of_each(es: Seq<Expr>, names: Seq<Seq<char>>)
    requires
        !calls_any_of(es, names),
    ensures
        forall|i: int| 0 <= i < es.len() ==> !calls_any(#[trigger] es[i], names),
    decreases es.len(),
{
    if es.len() > 0 {
        lemma_calls_any_of_each(es.drop_last(), names);
        assert forall|i: int| 0 <= i < es.len() implies !calls_any(#[trigger] es[i], names) by {
            if i < es.len() - 1 {
                assert(es[i] == es.drop_last()[i]);
            }
        }
    }
}

/// Bindings that together hold no call to one of `names` hold none each.
pub proof fn lemma_bindings_call_each(bs: Seq<LetBinding>, names: Seq<Seq<char>>)
    requires
        !bindings_call(bs, names),
    ensures
        forall|i: int| 0 <= i < bs.len() ==> !calls_any(#[trigger] bs[i].expr, names),
    decreases bs.len(),
{
    if bs.len() > 0 {
        lemma_bindings_call_each(bs.drop_last(), names);
        assert forall|i: int| 0 <= i < bs.len() implies !calls_any(#[trigger] bs[i].expr, names) by {
            if i < bs.len() - 1 {
                assert(bs[i] == bs.drop_last()[i]);
            }
        }
    }
}

/// Arms that together hold no call to one of `names` hold none each.
pub proof fn lemma_arms_call_each(arms: Seq<MatchArm>, names: Seq<Seq<char>>)
    requires
        !arms_call(arms, names),
    ensures
        forall|i: int| 0 <= i < arms.len() ==> !calls_any(#[trigger] arms[i].body, names),
    decreases arms.len(),
{
    if arms.len() > 0 {
        lemma_arms_call_each(arms.drop_last(), names);
        assert forall|i: int| 0 <= i < arms.len() implies !calls_any(#[trigger] arms[i].body, names) by {
            if i < arms.len() - 1 {
                assert(arms[i] == arms.drop_last()[i]);
            }
        }
    }
}

/// Entries that together hold no call to one of `names` hold none each.
pub proof fn lemma_entries_call_each(es: Seq<(Expr, Expr)>, names: Seq<Seq<char>>)
    requires
        !entries_call(es, names),
    ensures
        forall|i: int| 0 <= i < es.len() ==> !calls_any(#[trigger] es[i].0, names) && !calls_any(es[i].1, names),
    decreases es.len(),
{
    if es.len() > 0 {
        lemma_entries_call_each(es.drop_last(), names);
        assert forall|i: int| 0 <= i < es.len() implies !calls_any(#[trigger] es[i].0, names) && !calls_any(es[i].1, names) by {
            if i < es.len() - 1 {
                assert(es[i] == es.drop_last()[i]);
            }
        }
    }
}

/// Two record fields are the same: names spelled the same, same type and span.
pub open spec fn field_same(a: Field, b: Field) -> bool {
    a.name@ == b.name@ && a.rust_name@ == b.rust_name@ && ty_same(a.ty, b.ty) && a.span == b.span
}

/// Two enum variants are the same: names spelled the same, the same
/// fields and span.
pub open spec fn variant_same(a: VariantDef, b: VariantDef) -> bool {
    &&& a.name@ == b.name@
    &&& a.rust_name@ == b.rust_name@
    &&& a.span == b.span
    &&& a.fields@.len() == b.fields@.len()
    &&& forall|i: int| 0 <= i < a.fields@.len() ==> field_same(#[trigger] a.fields@[i], b.fields@[i])
}

/// A copy of a list of fields.
pub fn clone_fields(xs: &Vec<Field>) -> (out: Vec<Field>)
    ensures
        out@.len() == xs@.len(),
        forall|i: int| 0 <= i < xs@.len() ==> field_same(#[trigger] out@[i], xs@[i]),
{
    let mut fields: Vec<Field> = Vec::new();
    let mut i: usize = 0;
    while i < xs.len()
        invariant
            i <= xs@.len(),
            fields@.len() == i,
            forall|j: int| 0 <= j < i ==> field_same(#[trigger] fields@[j], xs@[j]),
        decreases xs@.len() - i,
    {
        let f = &xs[i];
        fields.push(Field { name: copy(&f.name), rust_name: copy(&f.rust_name), ty: clone_ty(&f.ty), span: f.span });
        i = i + 1;
    }
    fields
}

/// A copy of an enum variant.
pub fn clone_variant(v: &VariantDef) -> (r: VariantDef)
    ensures
        variant_same(r, *v),
{
    VariantDef { name: copy(&v.name), rust_name: copy(&v.rust_name), fields: clone_fields(&v.fields), span: v.span }
}

/// Two record definitions are the same: names spelled the same, the same
/// fields, span and extern mark.
pub open spec fn struct_same(a: StructDef, b: StructDef) -> bool {
    &&& a.name@ == b.name@
    &&& a.rust_name@ == b.rust_name@
    &&& a.span == b.span
    &&& a.extern_ == b.extern_
    &&& a.fields@.len() == b.fields@.len()
    &&& forall|i: int| 0 <= i < a.fields@.len() ==> field_same(#[trigger] a.fields@[i], b.fields@[i])
}

/// A copy of a record definition.
pub fn clone_struct_def(sd: &StructDef) -> (r: StructDef)
    ensures
        struct_same(r, *sd),
{
    StructDef { name: copy(&sd.name), rust_name: copy(&sd.rust_name), fields: clone_fields(&sd.fields), span: sd.span, extern_: sd.extern_ }
}

/// Two enum definitions are the same: names spelled the same, the same
/// variants, span and extern mark.
pub open spec fn union_same(a: UnionDef, b: UnionDef) -> bool {
    &&& a.name@ == b.name@
    &&& a.rust_name@ == b.rust_name@
    &&& a.span == b.span
    &&& a.extern_ == b.extern_
    &&& a.variants@.len() == b.variants@.len()
    &&& forall|i: int| 0 <= i < a.variants@.len() ==> variant_same(#[trigger] a.variants@[i], b.variants@[i])
}

/// A copy of an enum definition.
pub fn clone_union_def(ud: &UnionDef) -> (r: UnionDef)
    ensures
        union_same(r, *ud),
{
    let mut variants: Vec<VariantDef> = Vec::new();
    let mut i: usize = 0;
    while i < ud.variants.len()
        invariant
            i <= ud.variants@.len(),
            variants@.len() == i,
            forall|j: int| 0 <= j < i ==> variant_same(#[trigger] variants@[j], ud.variants@[j]),
        decreases ud.variants@.len() - i,
    {
        variants.push(clone_variant(&ud.variants[i]));
        i = i + 1;
    }
    UnionDef { name: copy(&ud.name), rust_name: copy(&ud.rust_name), variants, span: ud.span, extern_: ud.extern_ }
}

} // verus!



