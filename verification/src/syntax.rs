//! From s-expressions to the AST: type names, identifier checks, and the
//! parsers of expressions and top-level forms.

use vstd::prelude::*;
use crate::ast::{
    is_builtin_op, is_callable_ident, is_callable_ident_spec, is_lisp_ident, is_lisp_ident_spec,
    is_module_path, is_module_path_spec, is_primitive_type, is_reserved_ident, is_reserved_spec,
    rust_type_name, rust_value_name, rust_value_name_of, Def, Expr, Field, FnDef, InlineDef,
    Iterable, LetBinding, MapKind, MatchArm, MatchPat, Param, RangeExpr, StructDef, Top, Ty,
    UnionDef, UseDecl, VariantDef,
};
use crate::diag::{Diag, DslResult, Loc, Span};
use crate::lexer::{is_space, space, TokKind};
use crate::parser::Sexp;
use crate::type_aliases::resolve_type_alias;
use crate::text::{
    chars_eq_ignore_case, chars_is, concat2, concat3, contains_char, copy, eq_ignore_case,
    find_char, first_index, lit_chars, rfind_char, string_chars, string_from_chars, sub_chars, usize_to_string,
};

verus! {

// ---------------------------------------------------------------------------
// Diagnostics

fn err_at(msg: &str, sp: Span) -> (d: Diag)
    ensures
        d.message@ == msg@,
        d.span == Some(sp),
{
    Diag::new(msg).with_span(sp)
}

fn err_owned(msg: String, sp: Span) -> (d: Diag)
    ensures
        d.message == msg,
        d.span == Some(sp),
{
    Diag::from_message(msg).with_span(sp)
}

// ---------------------------------------------------------------------------
// Type names

/// Splits `s` at the `sep` characters that stand outside angle brackets
/// (a '>' never takes the depth below zero). Pieces are ranges of `s`;
/// with `keep_empty` false the empty pieces are dropped.
fn split_top_level(s: &[char], sep: char, keep_empty: bool) -> (out: Vec<(usize, usize)>)
    ensures
        forall|k: int| 0 <= k < out@.len() ==> {
            let (a, b) = #[trigger] out@[k];
            a <= b <= s@.len()
        },
        out@.len() > 1 ==> forall|k: int| 0 <= k < out@.len() ==> {
            let (a, b) = #[trigger] out@[k];
            b - a < s@.len()
        },
        keep_empty ==> out@.len() >= 1,
        (forall|i: int| 0 <= i < s@.len() ==> s@[i] != sep) ==> out@.len() <= 1,
{
    let mut out: Vec<(usize, usize)> = Vec::new();
    let mut depth: usize = 0;
    let mut start: usize = 0;
    let mut seen = false;
    let n = s.len();
    let mut i: usize = 0;
    while i < n
        invariant
            n == s@.len(),
            i <= n,
            start <= i,
            !seen ==> start == 0 && out@.len() == 0,
            seen ==> start > 0,
            (forall|j: int| 0 <= j < s@.len() ==> s@[j] != sep) ==> !seen,
            forall|k: int| 0 <= k < out@.len() ==> {
                let (a, b) = #[trigger] out@[k];
                a <= b <= i && (b - a < n)
            },
        decreases n - i,
    {
        let c = s[i];
        if c == '<' {
            if depth < usize::MAX {
                depth = depth + 1;
            }
        } else if c == '>' {
            if depth > 0 {
                depth = depth - 1;
            }
        } else if c == sep && depth == 0 {
            if keep_empty || start < i {
                out.push((start, i));
            }
            start = i + 1;
            seen = true;
        }
        i = i + 1;
    }
    if keep_empty || start < n {
        out.push((start, n));
    }
    out
}

/// The ASCII white space that `str::trim` would remove at either end.
fn trim_range(s: &[char], a: usize, b: usize) -> (r: (usize, usize))
    requires
        a <= b <= s@.len(),
    ensures
        a <= r.0 <= r.1 <= b,
{
    let mut x = a;
    while x < b && space(s[x])
        invariant
            a <= x <= b,
            b <= s@.len(),
        decreases b - x,
    {
        x = x + 1;
    }
    let mut y = b;
    while y > x && space(s[y - 1])
        invariant
            x <= y <= b,
            b <= s@.len(),
        decreases y,
    {
        y = y - 1;
    }
    (x, y)
}

/// `t` followed by decimal digits only, with a value that fits in `u32`.
pub open spec fn generic_id_spec(s: Seq<char>) -> Option<u32> {
    if s.len() >= 2 && s[0] == 't' && crate::lexer::all_digits(s.drop_first())
        && crate::lexer::digits_value(s.drop_first()) <= u32::MAX {
        Some(crate::lexer::digits_value(s.drop_first()) as u32)
    } else {
        None
    }
}

fn parse_generic_id(s: &[char]) -> (r: Option<u32>)
    ensures
        r == generic_id_spec(s@),
{
    if s.len() < 2 || s[0] != 't' {
        return None;
    }
    let mut v: u64 = 0;
    let mut i: usize = 1;
    while i < s.len()
        invariant
            1 <= i <= s@.len(),
            s@.len() >= 2,
            crate::lexer::all_digits(s@.subrange(1, i as int)),
            v == crate::lexer::digits_value(s@.subrange(1, i as int)),
            v <= u32::MAX,
        decreases s@.len() - i,
    {
        let c = s[i];
        if !('0' <= c && c <= '9') {
            proof {
                assert(s@.drop_first()[i - 1] == c);
            }
            return None;
        }
        let d = (c as u32 - '0' as u32) as u64;
        let nv = v * 10 + d;
        proof {
            let p = s@.subrange(1, i as int);
            let q = s@.subrange(1, i + 1);
            assert(q.drop_last() =~= p);
            assert(q.last() == c);
            crate::lexer::lemma_digits_value_nonneg(p);
        }
        if nv > u32::MAX as u64 {
            proof {
                if crate::lexer::all_digits(s@.drop_first()) {
                    crate::lexer::lemma_digits_value_grows(s@.drop_first(), i as int);
                    assert(s@.drop_first().subrange(0, i as int) =~= s@.subrange(1, i + 1));
                }
            }
            return None;
        }
        v = nv;
        i = i + 1;
    }
    assert(s@.subrange(1, s@.len() as int) =~= s@.drop_first());
    Some(v as u32)
}

/// `name<inner>`, the name compared without ASCII case: the inner text.
pub open spec fn generic_inner_spec(s: Seq<char>, name: Seq<char>) -> Option<Seq<char>> {
    if s.len() > name.len() + 2 && eq_ignore_case(s.subrange(0, name.len() as int), name)
        && s[name.len() as int] == '<' && s[s.len() - 1] == '>' {
        Some(s.subrange(name.len() as int + 1, s.len() - 1))
    } else {
        None
    }
}

fn parse_generic_inner(s: &[char], name: &str) -> (r: Option<Vec<char>>)
    ensures
        r matches Some(v) ==> generic_inner_spec(s@, name@) == Some(v@) && v@.len() < s@.len(),
        r is None ==> generic_inner_spec(s@, name@) is None,
{
    let nm = lit_chars(name);
    let n = nm.len();
    let len = s.len();
    if len <= n || len - n <= 2 {
        return None;
    }
    let head = sub_chars(s, 0, n);
    if !chars_eq_ignore_case(head.as_slice(), nm.as_slice()) || s[n] != '<' || s[len - 1] != '>' {
        return None;
    }
    Some(sub_chars(s, n + 1, len - 1))
}

/// The type that a type symbol such as `vec<i32>`, `option<t0>` or `a|b`
/// names. Unrecognized shapes are named types.
pub fn parse_type_from_sym(s: &[char]) -> (t: Ty)
    ensures
        plain_type_name(s@) && s@ == "unit"@ ==> (t matches Ty::Named(n) && n@ == "()"@),
        plain_type_name(s@) && s@ != "unit"@ && generic_id_spec(s@) is Some
            ==> t == Ty::Generic(generic_id_spec(s@)->Some_0),
        plain_type_name(s@) && s@ != "unit"@ && generic_id_spec(s@) is None
            ==> (t matches Ty::Named(n) && n@ == crate::type_aliases::alias_target(s@)),
    decreases s@.len(),
{
    let parts = split_top_level(s, '|', false);
    if parts.len() > 1 {
        let mut tys: Vec<Ty> = Vec::new();
        let mut k: usize = 0;
        while k < parts.len()
            invariant
                parts@.len() > 1,
                k <= parts@.len(),
                forall|j: int| 0 <= j < parts@.len() ==> {
                    let (a, b) = #[trigger] parts@[j];
                    a <= b <= s@.len() && b - a < s@.len()
                },
            decreases parts@.len() - k,
        {
            let (a, b) = parts[k];
            let piece = sub_chars(s, a, b);
            tys.push(parse_type_from_sym(piece.as_slice()));
            k = k + 1;
        }
        return Ty::Union(tys);
    }
    if chars_is(s, "unit") {
        return Ty::Named(String::from_str("()"));
    }
    if let Some(id) = parse_generic_id(s) {
        return Ty::Generic(id);
    }
    if let Some(inner) = parse_generic_inner(s, "vec") {
        return Ty::Vec(Box::new(parse_type_from_sym(inner.as_slice())));
    }
    let set_inner = match parse_generic_inner(s, "set") {
        Some(v) => Some(v),
        None => parse_generic_inner(s, "hashset"),
    };
    if let Some(inner) = set_inner {
        return Ty::SetOf(Box::new(parse_type_from_sym(inner.as_slice())));
    }
    if let Some(inner) = parse_generic_inner(s, "option") {
        return Ty::Option(Box::new(parse_type_from_sym(inner.as_slice())));
    }
    if let Some(inner) = parse_generic_inner(s, "result") {
        if let Some((a, b)) = two_type_args(inner.as_slice()) {
            let ok = parse_type_from_sym(a.as_slice());
            let err = parse_type_from_sym(b.as_slice());
            return Ty::Result(Box::new(ok), Box::new(err));
        }
    }
    if let Some(inner) = parse_generic_inner(s, "hash-map") {
        if let Some((a, b)) = two_type_args(inner.as_slice()) {
            let k = parse_type_from_sym(a.as_slice());
            let v = parse_type_from_sym(b.as_slice());
            return Ty::MapOf(MapKind::Hash, Box::new(k), Box::new(v));
        }
    }
    if let Some(inner) = parse_generic_inner(s, "btree-map") {
        if let Some((a, b)) = two_type_args(inner.as_slice()) {
            let k = parse_type_from_sym(a.as_slice());
            let v = parse_type_from_sym(b.as_slice());
            return Ty::MapOf(MapKind::BTree, Box::new(k), Box::new(v));
        }
    }
    let raw = string_from_chars(s);
    Ty::Named(String::from_str(resolve_type_alias(raw.as_str())))
}

/// A type name with no `|` and no `<`: a name, an alias or a type variable.
pub open spec fn plain_type_name(s: Seq<char>) -> bool {
    forall|i: int| 0 <= i < s.len() ==> s[i] != '|' && s[i] != '<'
}

/// The comma-separated arguments of a type, trimmed; `None` unless there
/// are exactly two.
fn two_type_args(s: &[char]) -> (r: Option<(Vec<char>, Vec<char>)>)
    ensures
        r matches Some((a, b)) ==> a@.len() <= s@.len() && b@.len() <= s@.len(),
{
    let parts = split_top_level(s, ',', true);
    if parts.len() != 2 {
        return None;
    }
    let (a0, a1) = parts[0];
    let (b0, b1) = parts[1];
    let (x0, x1) = trim_range(s, a0, a1);
    let (y0, y1) = trim_range(s, b0, b1);
    Some((sub_chars(s, x0, x1), sub_chars(s, y0, y1)))
}

/// All comma-separated arguments of a type, trimmed.
fn type_args(s: &[char]) -> (r: Vec<Vec<char>>)
    ensures
        r@.len() >= 1,
{
    let parts = split_top_level(s, ',', true);
    let mut out: Vec<Vec<char>> = Vec::new();
    let mut k: usize = 0;
    while k < parts.len()
        invariant
            k <= parts@.len(),
            out@.len() == k,
            forall|j: int| 0 <= j < parts@.len() ==> {
                let (a, b) = #[trigger] parts@[j];
                a <= b <= s@.len()
            },
        decreases parts@.len() - k,
    {
        let (a, b) = parts[k];
        let (x, y) = trim_range(s, a, b);
        out.push(sub_chars(s, x, y));
        k = k + 1;
    }
    out
}

// ---------------------------------------------------------------------------
// Identifier checks

/// The message for a name that is not kebab-case.
pub open spec fn kebab_message(kind: Seq<char>) -> Seq<char> {
    kind + " must be lowercase lisp-style (kebab-case)"@
}

/// The message for a reserved word used as a name.
pub open spec fn reserved_message(name: Seq<char>) -> Seq<char> {
    "'"@ + name + "' is a reserved keyword"@
}

/// `name` as a kebab-case identifier that is not a reserved word.
pub fn ensure_lisp_ident(name: &[char], span: Span, kind: &str) -> (r: DslResult<String>)
    ensures
        !is_lisp_ident_spec(name@) ==> r is Err && r->Err_0.message@ == kebab_message(kind@)
            && r->Err_0.span == Some(span),
        is_lisp_ident_spec(name@) && is_reserved_spec(name@) ==> r is Err
            && r->Err_0.message@ == reserved_message(name@) && r->Err_0.span == Some(span),
        is_lisp_ident_spec(name@) && !is_reserved_spec(name@) ==> r is Ok && r->Ok_0@ == name@,
{
    if !is_lisp_ident(name) {
        let msg = concat2(kind, " must be lowercase lisp-style (kebab-case)");
        return Err(err_owned(msg, span));
    }
    let s = string_from_chars(name);
    if is_reserved_ident(name) {
        let msg = concat3("'", s.as_str(), "' is a reserved keyword");
        return Err(err_owned(msg, span));
    }
    Ok(s)
}

/// The message for a name with characters a callable name cannot have.
pub open spec fn callable_message(kind: Seq<char>) -> Seq<char> {
    kind + " must use valid callable characters (letters, digits, and -_?!*+=<>$)"@
}

/// `name` as a callable identifier; reserved words are refused unless
/// `allow_reserved`.
pub fn ensure_callable_ident(name: &[char], span: Span, kind: &str, allow_reserved: bool) -> (r: DslResult<String>)
    ensures
        !is_callable_ident_spec(name@) ==> r is Err && r->Err_0.message@ == callable_message(kind@)
            && r->Err_0.span == Some(span),
        is_callable_ident_spec(name@) && is_reserved_spec(name@) && !allow_reserved ==> r is Err
            && r->Err_0.message@ == reserved_message(name@) && r->Err_0.span == Some(span),
        is_callable_ident_spec(name@) && (allow_reserved || !is_reserved_spec(name@)) ==> r is Ok
            && r->Ok_0@ == name@,
{
    if !is_callable_ident(name) {
        let msg = concat2(kind, " must use valid callable characters (letters, digits, and -_?!*+=<>$)");
        return Err(err_owned(msg, span));
    }
    let s = string_from_chars(name);
    if !allow_reserved && is_reserved_ident(name) {
        let msg = concat3("'", s.as_str(), "' is a reserved keyword");
        return Err(err_owned(msg, span));
    }
    Ok(s)
}

/// The message for a name that should be qualified.
pub open spec fn qualified_message(kind: Seq<char>) -> Seq<char> {
    kind + " must be a qualified name like mod/name"@
}

/// `prefix/item`, split at the last '/'.
pub open spec fn split_last_slash(s: Seq<char>) -> Option<(Seq<char>, Seq<char>)> {
    match last_index(s, '/') {
        Some(i) => Some((s.subrange(0, i), s.subrange(i + 1, s.len() as int))),
        None => None,
    }
}

/// The last index of `c` in `s`.
pub open spec fn last_index(s: Seq<char>, c: char) -> Option<int> {
    if exists|i: int| 0 <= i < s.len() && s[i] == c {
        Some(choose|i: int| 0 <= i < s.len() && s[i] == c && forall|j: int| i < j < s.len() ==> s[j] != c)
    } else {
        None
    }
}

/// A qualified name `mod.path/item`: a module path, then an item that is
/// kebab-case, or merely callable when `callable`.
pub open spec fn qualified_ok(s: Seq<char>, callable: bool) -> bool {
    match split_last_slash(s) {
        Some((p, it)) => p.len() > 0 && it.len() > 0 && is_module_path_spec(p) && (if callable {
            is_callable_ident_spec(it)
        } else {
            is_lisp_ident_spec(it)
        }),
        None => false,
    }
}

fn rsplit_slash(s: &[char]) -> (r: Option<(Vec<char>, Vec<char>)>)
    ensures
        r matches Some((p, it)) ==> split_last_slash(s@) == Some((p@, it@)),
        r is None ==> split_last_slash(s@) is None,
{
    match rfind_char(s, '/') {
        Some(i) => {
            proof {
                assert(s@[i as int] == '/');
                let k = last_index(s@, '/');
                assert(k is Some);
                let w = k.unwrap();
                if w < i as int {
                    assert(s@[i as int] == '/');
                }
                if (i as int) < w {
                    assert(s@[w] == '/');
                }
            }
            let _n = s.len();
            Some((sub_chars(s, 0, i), sub_chars(s, i + 1, s.len())))
        },
        None => {
            proof {
                if exists|i: int| 0 <= i < s@.len() && s@[i] == '/' {
                    let i = choose|i: int| 0 <= i < s@.len() && s@[i] == '/';
                    assert(s@[i] == '/');
                }
            }
            None
        },
    }
}

/// `name` as a qualified name.
pub fn ensure_qualified_name(name: &[char], span: Span, kind: &str, callable: bool) -> (r: DslResult<String>)
    ensures
        qualified_ok(name@, callable) ==> r is Ok && r->Ok_0@ == name@,
        !qualified_ok(name@, callable) ==> r is Err && r->Err_0.message@ == qualified_message(kind@)
            && r->Err_0.span == Some(span),
{
    match rsplit_slash(name) {
        Some((p, it)) => {
            let item_ok = if callable {
                is_callable_ident(it.as_slice())
            } else {
                is_lisp_ident(it.as_slice())
            };
            if p.len() == 0 || it.len() == 0 || !is_module_path(p.as_slice()) || !item_ok {
                let msg = concat2(kind, " must be a qualified name like mod/name");
                return Err(err_owned(msg, span));
            }
            Ok(string_from_chars(name))
        },
        None => {
            let msg = concat2(kind, " must be a qualified name like mod/name");
            Err(err_owned(msg, span))
        },
    }
}

/// A type name: qualified when it has a '/', else kebab-case and not reserved.
pub open spec fn type_name_ok(s: Seq<char>) -> bool {
    if s.contains('/') {
        qualified_ok(s, false)
    } else {
        is_lisp_ident_spec(s) && !is_reserved_spec(s)
    }
}

fn ensure_type_name(name: &String, span: Span) -> (r: DslResult<()>)
    ensures
        r is Ok <==> type_name_ok(name@),
{
    let cs = string_chars(name);
    if contains_char(cs.as_slice(), '/') {
        match ensure_qualified_name(cs.as_slice(), span, "type name", false) {
            Ok(_) => Ok(()),
            Err(e) => Err(e),
        }
    } else {
        match ensure_lisp_ident(cs.as_slice(), span, "type name") {
            Ok(_) => Ok(()),
            Err(e) => Err(e),
        }
    }
}

/// A named type is primitive or a valid type name; other types pass.
pub open spec fn named_ok(t: Ty) -> bool {
    match t {
        Ty::Named(n) => crate::ast::is_primitive_type_spec(n@) || type_name_ok(n@),
        _ => true,
    }
}

fn check_named(t: &Ty, sp: Span) -> (r: DslResult<()>)
    ensures
        r is Ok <==> named_ok(*t),
{
    match t {
        Ty::Named(n) => {
            if is_primitive_type(n) {
                Ok(())
            } else {
                ensure_type_name(n, sp)
            }
        },
        _ => Ok(()),
    }
}

/// The names a checked type holds pass the name check: at the top, inside
/// a vector, set, option, result or map, or as members of a union.
pub open spec fn checked_ty_ok(t: Ty) -> bool {
    match t {
        Ty::Named(_) => named_ok(t),
        Ty::Vec(inner) => named_ok(*inner),
        Ty::SetOf(inner) => named_ok(*inner),
        Ty::Option(inner) => named_ok(*inner),
        Ty::Result(ok, err) => named_ok(*ok) && named_ok(*err),
        Ty::MapOf(_, k, v) => named_ok(*k) && named_ok(*v),
        Ty::Union(items) => forall|k: int| 0 <= k < items@.len() ==> union_item_ok(#[trigger] items@[k]),
        _ => true,
    }
}

/// The type a symbol names, with the names in it checked: every named
/// type that is not primitive must be a valid type name.
pub fn parse_type_from_sym_checked(s: &[char], sp: Span) -> (r: DslResult<Ty>)
    ensures
        r matches Ok(t) ==> checked_ty_ok(t),
        plain_type_name(s@) && s@ != "unit"@ && generic_id_spec(s@) is Some
            ==> r == Ok::<Ty, Diag>(Ty::Generic(generic_id_spec(s@)->Some_0)),
        plain_type_name(s@) && s@ != "unit"@ && generic_id_spec(s@) is None ==> {
            let n = crate::type_aliases::alias_target(s@);
            &&& r is Ok <==> (crate::ast::is_primitive_type_spec(n) || type_name_ok(n))
            &&& r matches Ok(t) ==> (t matches Ty::Named(m) && m@ == n)
        },
{
    let ty = parse_type_from_sym(s);
    let checked = match &ty {
        Ty::Named(_) => check_named(&ty, sp),
        Ty::Vec(inner) => check_named(inner, sp),
        Ty::SetOf(inner) => check_named(inner, sp),
        Ty::Option(inner) => check_named(inner, sp),
        Ty::Result(ok, err) => match check_named(ok, sp) {
            Ok(()) => check_named(err, sp),
            Err(e) => Err(e),
        },
        Ty::MapOf(_, k, v) => match check_named(k, sp) {
            Ok(()) => check_named(v, sp),
            Err(e) => Err(e),
        },
        Ty::Union(items) => check_union_items(items, sp),
        Ty::Generic(_) => Ok(()),
        Ty::Unknown => Ok(()),
    };
    match checked {
        Ok(()) => Ok(ty),
        Err(e) => Err(e),
    }
}

/// A member of an enum-like union type passes the name check: a named
/// type, or the element of a vector, set or option.
pub open spec fn union_item_ok(t: Ty) -> bool {
    match t {
        Ty::Named(_) => named_ok(t),
        Ty::Vec(x) => named_ok(*x),
        Ty::SetOf(x) => named_ok(*x),
        Ty::Option(x) => named_ok(*x),
        _ => true,
    }
}

fn check_union_items(items: &Vec<Ty>, sp: Span) -> (r: DslResult<()>)
    ensures
        r is Ok <==> forall|k: int| 0 <= k < items@.len() ==> union_item_ok(#[trigger] items@[k]),
{
    let mut k: usize = 0;
    while k < items.len()
        invariant
            k <= items@.len(),
            forall|j: int| 0 <= j < k ==> union_item_ok(#[trigger] items@[j]),
        decreases items@.len() - k,
    {
        let c = match &items[k] {
            Ty::Named(_) => check_named(&items[k], sp),
            Ty::Vec(inner) => check_named(inner, sp),
            Ty::SetOf(inner) => check_named(inner, sp),
            Ty::Option(inner) => check_named(inner, sp),
            _ => Ok(()),
        };
        if let Err(e) = c {
            return Err(e);
        }
        k = k + 1;
    }
    Ok(())
}

// ---------------------------------------------------------------------------
// S-expression helpers

/// The span of an s-expression.
pub open spec fn sexp_span(se: Sexp) -> Span {
    match se {
        Sexp::Atom(_, sp) => sp,
        Sexp::List(_, sp) => sp,
        Sexp::Brack(_, sp) => sp,
        Sexp::Brace(_, sp) => sp,
        Sexp::SetForm(_, sp) => sp,
    }
}

/// The span of an s-expression.
pub fn se_span(se: &Sexp) -> (sp: Span)
    ensures
        sp == sexp_span(*se),
{
    match se {
        Sexp::Atom(_, sp) => *sp,
        Sexp::List(_, sp) => *sp,
        Sexp::Brack(_, sp) => *sp,
        Sexp::Brace(_, sp) => *sp,
        Sexp::SetForm(_, sp) => *sp,
    }
}

/// The symbol of an atom, if it is one.
pub fn atom_sym(se: &Sexp) -> (r: Option<(String, Span)>)
    ensures
        match *se {
            Sexp::Atom(TokKind::Sym(s), sp) => r matches Some((t, tsp)) && t@ == s@ && tsp == sp,
            _ => r is None,
        },
{
    match se {
        Sexp::Atom(TokKind::Sym(s), sp) => Some((copy(s), *sp)),
        _ => None,
    }
}

fn atom_str(se: &Sexp) -> (r: Option<String>)
    ensures
        match *se {
            Sexp::Atom(TokKind::Str(s), _) => r matches Some(t) && t@ == s@,
            _ => r is None,
        },
{
    match se {
        Sexp::Atom(TokKind::Str(s), _) => Some(copy(s)),
        _ => None,
    }
}

fn sym_eq(s: &String, lit: &str) -> (b: bool)
    ensures
        b == (s@ == lit@),
{
    crate::text::is_lit(s, lit)
}

/// The name of a token kind, as messages write it.
pub open spec fn tok_kind_label(k: TokKind) -> Seq<char> {
    match k {
        TokKind::LParen => "LParen"@,
        TokKind::RParen => "RParen"@,
        TokKind::LBrack => "LBrack"@,
        TokKind::RBrack => "RBrack"@,
        TokKind::LBrace => "LBrace"@,
        TokKind::RBrace => "RBrace"@,
        TokKind::LSet => "LSet"@,
        TokKind::Quote => "Quote"@,
        TokKind::SyntaxQuote => "SyntaxQuote"@,
        TokKind::Unquote => "Unquote"@,
        TokKind::UnquoteSplicing => "UnquoteSplicing"@,
        TokKind::Meta => "Meta"@,
        TokKind::Discard => "Discard"@,
        TokKind::Sym(_) => "Sym"@,
        TokKind::Str(_) => "Str"@,
        TokKind::Int(_) => "Int"@,
        TokKind::Float(_) => "Float"@,
    }
}

fn tok_kind_name(k: &TokKind) -> (s: String)
    ensures
        s@ == tok_kind_label(*k),
{
    match k {
        TokKind::LParen => String::from_str("LParen"),
        TokKind::RParen => String::from_str("RParen"),
        TokKind::LBrack => String::from_str("LBrack"),
        TokKind::RBrack => String::from_str("RBrack"),
        TokKind::LBrace => String::from_str("LBrace"),
        TokKind::RBrace => String::from_str("RBrace"),
        TokKind::LSet => String::from_str("LSet"),
        TokKind::Quote => String::from_str("Quote"),
        TokKind::SyntaxQuote => String::from_str("SyntaxQuote"),
        TokKind::Unquote => String::from_str("Unquote"),
        TokKind::UnquoteSplicing => String::from_str("UnquoteSplicing"),
        TokKind::Meta => String::from_str("Meta"),
        TokKind::Discard => String::from_str("Discard"),
        TokKind::Sym(_) => String::from_str("Sym"),
        TokKind::Str(_) => String::from_str("Str"),
        TokKind::Int(_) => String::from_str("Int"),
        TokKind::Float(_) => String::from_str("Float"),
    }
}

fn first_colon_split(s: &[char]) -> (r: Option<(Vec<char>, Vec<char>)>)
    ensures
        match first_index(s@, ':') {
            Some(i) => r matches Some((a, b)) && a@ == s@.subrange(0, i) && b@ == s@.subrange(i + 1, s@.len() as int),
            None => r is None,
        },
{
    proof {
        crate::text::lemma_first_index(s@, ':');
    }
    match find_char(s, ':') {
        Some(i) => {
            proof {
                let k = first_index(s@, ':');
                assert(k is Some);
                let w = k.unwrap();
                if w < i as int { assert(s@[w] == ':'); }
                if (i as int) < w { assert(s@[i as int] == ':'); }
            }
            let _n = s.len();
            Some((sub_chars(s, 0, i), sub_chars(s, i + 1, s.len())))
        },
        None => {
            proof {
                if first_index(s@, ':') is Some {
                    let w = first_index(s@, ':').unwrap();
                    assert(s@.contains(':')) by { assert(s@[w] == ':'); }
                }
            }
            None
        },
    }
}

fn first_dot_split(s: &[char]) -> (r: Option<(Vec<char>, Vec<char>)>)
    ensures
        match first_index(s@, '.') {
            Some(i) => r matches Some((a, b)) && a@ == s@.subrange(0, i) && b@ == s@.subrange(i + 1, s@.len() as int),
            None => r is None,
        },
{
    proof {
        crate::text::lemma_first_index(s@, '.');
    }
    match find_char(s, '.') {
        Some(i) => {
            proof {
                let k = first_index(s@, '.');
                assert(k is Some);
                let w = k.unwrap();
                if w < i as int { assert(s@[w] == '.'); }
                if (i as int) < w { assert(s@[i as int] == '.'); }
            }
            let _n = s.len();
            Some((sub_chars(s, 0, i), sub_chars(s, i + 1, s.len())))
        },
        None => {
            proof {
                if first_index(s@, '.') is Some {
                    let w = first_index(s@, '.').unwrap();
                    assert(s@.contains('.')) by { assert(s@[w] == '.'); }
                }
            }
            None
        },
    }
}

/// `name:Type` in a symbol position: a variable with a type ascription.
/// `None` when the symbol has no ':'.
fn parse_symbol_ascription(sym: &[char], sp: Span) -> (r: DslResult<Option<Expr>>)
    ensures
        first_index(sym@, ':') is None ==> r == Ok::<Option<Expr>, Diag>(None),
        r matches Ok(Some(e)) ==> e is Ascribe,
{
    match first_colon_split(sym) {
        None => Ok(None),
        Some((name, ty)) => {
            if name.len() == 0 || ty.len() == 0 {
                return Err(err_at("type ascription must be name:Type", sp));
            }
            let name = match ensure_lisp_ident(name.as_slice(), sp, "variable name") {
                Ok(n) => n,
                Err(e) => return Err(e),
            };
            let ann = match parse_type_from_sym_checked(ty.as_slice(), sp) {
                Ok(t) => t,
                Err(e) => return Err(e),
            };
            Ok(Some(Expr::Ascribe {
                expr: Box::new(Expr::Var(rust_value_name_of(&name), sp)),
                ann,
                span: sp,
            }))
        },
    }
}

/// The name part of a symbol literal: what follows `:` or `::`.
pub open spec fn symbol_body(s: Seq<char>) -> Seq<char> {
    if s.len() >= 2 && s[1] == ':' { s.subrange(2, s.len() as int) } else { s.subrange(1, s.len() as int) }
}

/// A well-formed symbol literal: `:name`, `:ns/name`, `::name` or
/// `::alias/name`, with neither side of the '/' empty.
pub open spec fn symbol_literal_ok(s: Seq<char>) -> bool {
    let b = symbol_body(s);
    b.len() > 0 && b[0] != '/' && b[b.len() - 1] != '/'
}

/// A kebab-case identifier that is not a reserved word.
pub open spec fn plain_name(s: Seq<char>) -> bool {
    is_lisp_ident_spec(s) && !is_reserved_spec(s)
}

/// How a symbol standing as an expression is read: `true`, `false` and
/// `nil` are constants, `:name` a symbol literal, a name with `:` or `/`
/// is refused, and any other accepted symbol is a variable or `var.field`.
pub open spec fn symbol_expr_result(s: Seq<char>, sp: Span, r: DslResult<Expr>) -> bool {
    &&& s == "true"@ ==> r == Ok::<Expr, Diag>(Expr::Bool(true, sp))
    &&& s == "false"@ ==> r == Ok::<Expr, Diag>(Expr::Bool(false, sp))
    &&& s == "nil"@ ==> r == Ok::<Expr, Diag>(Expr::Unit(sp))
    &&& s.len() > 0 && s[0] == ':' ==> (r is Ok <==> symbol_literal_ok(s))
    &&& s.len() > 0 && s[0] == ':' && symbol_literal_ok(s) ==> (r matches Ok(Expr::SymbolLit(t, tsp)) && t@ == s && tsp == sp)
    &&& s.len() > 0 && s[0] == ':' && !symbol_literal_ok(s) ==> r->Err_0.span == Some(sp)
    &&& s != "true"@ && s != "false"@ && s != "nil"@ && !(s.len() > 0 && s[0] == ':') ==> {
        &&& s.contains(':') ==> r is Err && r->Err_0.message@
            == "a type ascription in an expression is written (type expr Type)"@ && r->Err_0.span == Some(sp)
        &&& !s.contains(':') && s.contains('/') ==> r is Err && r->Err_0.message@
            == "qualified name is only allowed in call heads"@ && r->Err_0.span == Some(sp)
        &&& r matches Ok(e) ==> (e matches Expr::Var(_, vsp) && vsp == sp)
            || (e matches Expr::Field { span: fsp, .. } && fsp == sp)
        &&& !s.contains(':') && !s.contains('/') ==> match first_index(s, '.') {
            Some(i) => 0 < i && i + 1 < s.len() && plain_name(s.subrange(0, i)) && plain_name(s.subrange(i + 1, s.len() as int))
                ==> (r matches Ok(Expr::Field { base, field, span: fsp }) && fsp == sp
                    && field@ == crate::ast::rust_value_name_spec(s.subrange(i + 1, s.len() as int))
                    && (*base matches Expr::Var(bn, bsp) && bn@ == crate::ast::rust_value_name_spec(s.subrange(0, i))
                        && bsp.start == sp.start)),
            None => plain_name(s) ==> (r matches Ok(Expr::Var(n, vsp)) && vsp == sp
                && n@ == crate::ast::rust_value_name_spec(s)),
        }
    }
}

fn parse_symbol_expr(s: &String, sp: Span) -> (r: DslResult<Expr>)
    ensures
        symbol_expr_result(s@, sp, r),
{
    proof {
        reveal_strlit("true");
        reveal_strlit("false");
        reveal_strlit("nil");
        reveal_strlit(":");
        assert("true"@ != "false"@) by { assert("true"@[0] != "false"@[0]); }
        assert("true"@ != "nil"@) by { assert("true"@[0] != "nil"@[0]); }
        assert("false"@ != "nil"@) by { assert("false"@[0] != "nil"@[0]); }
        assert("true"@ != ":"@) by { assert("true"@.len() != ":"@.len()); }
        assert("false"@ != ":"@) by { assert("false"@.len() != ":"@.len()); }
        assert("nil"@ != ":"@) by { assert("nil"@.len() != ":"@.len()); }
    }
    if sym_eq(s, "true") {
        return Ok(Expr::Bool(true, sp));
    }
    if sym_eq(s, "false") {
        return Ok(Expr::Bool(false, sp));
    }
    if sym_eq(s, "nil") {
        return Ok(Expr::Unit(sp));
    }
    let cs = string_chars(s);
    if cs.len() > 0 && cs[0] == ':' {
        let start: usize = if cs.len() >= 2 && cs[1] == ':' { 2 } else { 1 };
        if start >= cs.len() {
            return Err(err_at("symbol literal needs a name after ':'", sp));
        }
        if cs[start] == '/' || cs[cs.len() - 1] == '/' {
            return Err(err_at("malformed symbol literal: the namespace and the name around '/' must not be empty", sp));
        }
        proof {
            assert(symbol_body(s@) =~= cs@.subrange(start as int, cs@.len() as int));
        }
        return Ok(Expr::SymbolLit(copy(s), sp));
    }
    proof {
        reveal_strlit(":");
        if s@ == ":"@ {
            assert(cs@[0] == ':');
        }
    }
    if contains_char(cs.as_slice(), ':') {
        return Err(err_at("a type ascription in an expression is written (type expr Type)", sp));
    }
    if contains_char(cs.as_slice(), '/') {
        return Err(err_at("qualified name is only allowed in call heads", sp));
    }
    if let Some((a, b)) = first_dot_split(cs.as_slice()) {
        if a.len() > 0 && b.len() > 0 {
            let a = match ensure_lisp_ident(a.as_slice(), sp, "variable name") {
                Ok(n) => n,
                Err(e) => return Err(e),
            };
            let b = match ensure_lisp_ident(b.as_slice(), sp, "field name") {
                Ok(n) => n,
                Err(e) => return Err(e),
            };
            let alen = crate::rt::string_len(&a);
            let base_end = Loc {
                line: sp.start.line,
                col: sp.start.col.wrapping_add(alen),
                byte: sp.start.byte.wrapping_add(alen),
            };
            let base_span = Span { start: sp.start, end: base_end };
            return Ok(Expr::Field {
                base: Box::new(Expr::Var(rust_value_name_of(&a), base_span)),
                field: rust_value_name_of(&b),
                span: sp,
            });
        }
    }
    match ensure_lisp_ident(cs.as_slice(), sp, "variable name") {
        Ok(name) => Ok(Expr::Var(rust_value_name_of(&name), sp)),
        Err(e) => Err(e),
    }
}

// ---------------------------------------------------------------------------
// Expressions

/// What reading the s-expression `se` as an expression gives: a literal
/// keeps its value and span, a symbol is read as `symbol_expr_result` says,
/// a list as `list_form_result` says, and a literal collection keeps one
/// element per form.
pub open spec fn expr_parse(se: Sexp, r: DslResult<Expr>) -> bool
    decreases se, 2nat,
{
    match se {
        Sexp::Atom(TokKind::Int(v), sp) => r == Ok::<Expr, Diag>(Expr::Int(v, sp)),
        Sexp::Atom(TokKind::Str(_), sp) => r matches Ok(Expr::Str(_, esp)) && esp == sp,
        Sexp::Atom(TokKind::Sym(s), sp) => symbol_expr_result(s@, sp, r),
        Sexp::List(items, sp) => list_form_result(items@, sp, r),
        Sexp::Brack(items, sp) => r matches Ok(e) ==> e matches Expr::VecLit { elems, span, ann }
            && elems@.len() == items@.len() && span == sp && ann is None
            && forall|k: int| 0 <= k < items@.len() ==> expr_parse(#[trigger] items@[k], Ok(elems@[k])),
        Sexp::Brace(items, sp) => (items@.len() % 2 != 0 ==> r is Err && r->Err_0.message@
            == "map literal requires even number of forms"@ && r->Err_0.span == Some(sp))
            && (r matches Ok(e) ==> e matches Expr::MapLit { kind: MapKind::Hash, entries, span, ann }
            && 2 * entries@.len() == items@.len() && span == sp && ann is None),
        Sexp::SetForm(items, sp) => r matches Ok(e) ==> e matches Expr::SetLit { elems, span, ann }
            && elems@.len() == items@.len() && span == sp && ann is None
            && forall|k: int| 0 <= k < items@.len() ==> expr_parse(#[trigger] items@[k], Ok(elems@[k])),
        _ => true,
    }
}

/// The expression an s-expression denotes.
pub fn parse_expr(se: &Sexp) -> (r: DslResult<Expr>)
    ensures
        expr_parse(*se, r),
    decreases se, 9nat,
{
    match se {
        Sexp::Atom(TokKind::Int(v), sp) => Ok(Expr::Int(*v, *sp)),
        Sexp::Atom(TokKind::Float(v), sp) => Ok(Expr::Float(copy(v), *sp)),
        Sexp::Atom(TokKind::Str(v), sp) => Ok(Expr::Str(copy(v), *sp)),
        Sexp::Atom(TokKind::Sym(s), sp) => parse_symbol_expr(s, *sp),
        Sexp::Atom(k, sp) => {
            let name = tok_kind_name(k);
            let msg = concat3("unexpected token ", name.as_str(), " where expression expected");
            Err(err_owned(msg, *sp))
        },
        Sexp::List(items, span) => parse_list_expr(items, *span),
        Sexp::Brack(items, span) => match parse_exprs_from(items, 0) {
            Ok(elems) => {
                proof {
                    assert forall|k: int| 0 <= k < items@.len() implies expr_parse(#[trigger] items@[k], Ok(elems@[k])) by {
                        assert(items@[0 + k] == items@[k]);
                    }
                }
                Ok(Expr::VecLit { elems, span: *span, ann: None })
            },
            Err(e) => Err(e),
        },
        Sexp::Brace(items, span) => {
            if items.len() % 2 != 0 {
                return Err(err_at("map literal requires even number of forms", *span));
            }
            match parse_entries(items) {
                Ok(entries) => Ok(Expr::MapLit { kind: MapKind::Hash, entries, span: *span, ann: None }),
                Err(e) => Err(e),
            }
        },
        Sexp::SetForm(items, span) => match parse_exprs_from(items, 0) {
            Ok(elems) => {
                proof {
                    assert forall|k: int| 0 <= k < items@.len() implies expr_parse(#[trigger] items@[k], Ok(elems@[k])) by {
                        assert(items@[0 + k] == items@[k]);
                    }
                }
                Ok(Expr::SetLit { elems, span: *span, ann: None })
            },
            Err(e) => Err(e),
        },
    }
}

/// The expressions of `items[from..]`, in order; the first error stops.
fn parse_exprs_from(items: &Vec<Sexp>, from: usize) -> (r: DslResult<Vec<Expr>>)
    ensures
        r matches Ok(v) ==> v@.len() == if from <= items@.len() { items@.len() - from } else { 0 },
        r matches Ok(v) ==> forall|k: int| 0 <= k < v@.len() ==> expr_parse(#[trigger] items@[from + k], Ok(v@[k])),
    decreases items, 0nat,
{
    let mut out: Vec<Expr> = Vec::new();
    let mut i = from;
    if i > items.len() {
        return Ok(out);
    }
    while i < items.len()
        invariant
            from <= i <= items@.len(),
            out@.len() == i - from,
            forall|k: int| 0 <= k < out@.len() ==> expr_parse(#[trigger] items@[from + k], Ok(out@[k])),
        decreases items@.len() - i,
    {
        match parse_expr(&items[i]) {
            Ok(e) => out.push(e),
            Err(e) => return Err(e),
        }
        i = i + 1;
    }
    Ok(out)
}

fn parse_entries(items: &Vec<Sexp>) -> (r: DslResult<Vec<(Expr, Expr)>>)
    requires
        items@.len() % 2 == 0,
    ensures
        r matches Ok(v) ==> 2 * v@.len() == items@.len(),
    decreases items, 0nat,
{
    let mut out: Vec<(Expr, Expr)> = Vec::new();
    let mut i: usize = 0;
    while i < items.len()
        invariant
            i <= items@.len(),
            i % 2 == 0,
            items@.len() % 2 == 0,
            2 * out@.len() == i,
        decreases items@.len() - i,
    {
        let k = match parse_expr(&items[i]) {
            Ok(e) => e,
            Err(e) => return Err(e),
        };
        let v = match parse_expr(&items[i + 1]) {
            Ok(e) => e,
            Err(e) => return Err(e),
        };
        out.push((k, v));
        i = i + 2;
    }
    Ok(out)
}

/// The body of a form: one expression, or a `do` of several.
fn parse_body_expr(items: &Vec<Sexp>, from: usize, span: Span) -> (r: DslResult<Expr>)
    ensures
        from >= items@.len() ==> r is Err && r->Err_0.message@ == "expected expression"@,
    decreases items, 1nat,
{
    if from >= items.len() {
        return Err(err_at("expected expression", span));
    }
    if items.len() - from == 1 {
        return parse_expr(&items[from]);
    }
    match parse_exprs_from(items, from) {
        Ok(exprs) => Ok(Expr::Do { exprs, span }),
        Err(e) => Err(e),
    }
}

fn starts_with_lit(s: &[char], lit: &str) -> (b: bool)
    ensures
        b == crate::text::has_prefix(s@, lit@),
{
    let l = lit_chars(lit);
    crate::text::starts_with(s, l.as_slice())
}

/// The head symbol of a list form and its span, where the head is a symbol.
pub open spec fn list_head(items: Seq<Sexp>) -> Option<(Seq<char>, Span)> {
    if items.len() > 0 {
        match items[0] {
            Sexp::Atom(TokKind::Sym(s), sp) => Some((s@, sp)),
            _ => None,
        }
    } else {
        None
    }
}

/// The message with which a special form headed by `head` is refused when
/// it has `n` items, the head included; `None` where its shape is right or
/// `head` names no such form.
pub open spec fn form_shape_error(head: Seq<char>, n: int) -> Option<Seq<char>> {
    if head == "."@ && n < 3 {
        Some("interop form is (. obj member [args...])"@)
    } else if head == "if"@ && (n < 3 || n > 4) {
        Some("if form is (if cond then [else])"@)
    } else if head == "type"@ && n != 3 {
        Some("type form is (type expr Type)"@)
    } else if head == "cast"@ && n != 3 {
        Some("cast form is (cast expr Type)"@)
    } else if head == "when"@ && n < 3 {
        Some("when form is (when cond expr ...)"@)
    } else if head == "with-meta"@ && n != 3 {
        Some("with-meta form is (with-meta form meta)"@)
    } else if head == "loop"@ && n < 2 {
        Some("loop form is (loop expr ...)"@)
    } else if head == "while"@ && n < 3 {
        Some("while form is (while cond expr ...)"@)
    } else if head == "let!"@ && n != 3 {
        Some("let! form is (let! name expr)"@)
    } else if head == "break"@ && n > 2 {
        Some("break form is (break [expr])"@)
    } else if head == "continue"@ && n != 1 {
        Some("continue form is (continue)"@)
    } else if head == "fn"@ && n < 3 {
        Some("fn form is (fn [params] expr ...)"@)
    } else if head == "call"@ && n < 2 {
        Some("call form is (call f arg ...)"@)
    } else if head == "do"@ && n < 2 {
        Some("do form is (do expr ...)"@)
    } else {
        None
    }
}

/// What a special form headed by `head` denotes, where it is accepted.
pub open spec fn form_denotes(head: Seq<char>, e: Expr, items: Seq<Sexp>) -> bool
    decreases items, 1nat,
{
    if head == "."@ {
        e is MethodCall
    } else if head == "and"@ {
        items.len() >= 2 ==> and_or_reads(true, items, e)
    } else if head == "or"@ {
        items.len() >= 2 ==> and_or_reads(false, items, e)
    } else if head == "if"@ {
        e matches Expr::If { cond, then_br, else_br, .. } && 3 <= items.len() <= 4
            && expr_parse(items[1], Ok(*cond)) && expr_parse(items[2], Ok(*then_br))
            && (items.len() == 4 <==> else_br is Some)
            && (else_br matches Some(b) ==> expr_parse(items[3], Ok(*b)))
    } else if head == "when"@ {
        e matches Expr::If { cond, else_br, .. } && items.len() >= 3 && expr_parse(items[1], Ok(*cond))
            && else_br is None
    } else if head == "type"@ {
        e is Ascribe
    } else if head == "cast"@ {
        e is Cast
    } else if head == "loop"@ {
        e is Loop
    } else if head == "while"@ {
        e matches Expr::While { cond, .. } && items.len() >= 3 && expr_parse(items[1], Ok(*cond))
    } else if head == "let!"@ {
        e matches Expr::Assign { expr, .. } && items.len() == 3 && expr_parse(items[2], Ok(*expr))
    } else if head == "break"@ {
        e matches Expr::Break { value, .. } && items.len() <= 2 && (items.len() == 2 <==> value is Some)
            && (value matches Some(v) ==> expr_parse(items[1], Ok(*v)))
    } else if head == "continue"@ {
        e is Continue
    } else if head == "fn"@ {
        e is Lambda
    } else if head == "call"@ {
        e is CallDyn
    } else if head == "do"@ {
        e is Do
    } else if head == "list"@ {
        e is VecLit
    } else {
        true
    }
}

/// The forms that may read as one of their operands as it stands: `and`,
/// `or` and `cond` with a single operand or clause, and `with-meta`.
pub open spec fn passes_operand(h: Seq<char>) -> bool {
    h == "and"@ || h == "or"@ || h == "cond"@ || h == "with-meta"@
}

/// A call read from the list `items` headed by `h`: the operator is `h`,
/// and each argument is what the form after the head reads as.
pub open spec fn call_parts(h: Seq<char>, items: Seq<Sexp>, span: Span, r: DslResult<Expr>) -> bool
    decreases items, 0nat,
{
    match r {
        Ok(Expr::Call { op, args, span: csp }) => {
            &&& csp == span
            &&& op@ == h
            &&& args@.len() + 1 == items.len()
            &&& forall|k: int| 0 <= k < args@.len() ==> expr_parse(#[trigger] items[1 + k], Ok(args@[k]))
        },
        _ => true,
    }
}

/// How a list form is read: an empty list and a head that is no symbol are
/// refused, a special form of the wrong shape is refused with its own
/// message at its head, and an accepted special form denotes its construct.
pub open spec fn list_form_result(items: Seq<Sexp>, span: Span, r: DslResult<Expr>) -> bool
    decreases items, 2nat,
{
    &&& items.len() == 0 ==> r is Err && r->Err_0.message@ == "empty list is not a valid expression"@
        && r->Err_0.span == Some(span)
    &&& items.len() > 0 && list_head(items) is None ==> r is Err
        && r->Err_0.message@ == "call head must be a symbol"@
        && r->Err_0.span == Some(sexp_span(items[0]))
    &&& forall|h: Seq<char>, hsp: Span|
        list_head(items) == Some((h, hsp)) && !h.contains(':') ==> {
            &&& form_shape_error(h, items.len() as int) matches Some(m) ==> r is Err
                && r->Err_0.message@ == m && r->Err_0.span == Some(hsp)
            &&& r is Ok ==> form_denotes(h, r->Ok_0, items)
            &&& !passes_operand(h) ==> call_parts(h, items, span, r)
        }
}

/// A list form: a special form by its head symbol, or a call.
fn parse_list_expr(items: &Vec<Sexp>, span: Span) -> (r: DslResult<Expr>)
    ensures
        list_form_result(items@, span, r),
    decreases items, 8nat,
{
    if items.len() == 0 {
        return Err(err_at("empty list is not a valid expression", span));
    }
    proof {
        reveal_strlit(".");
        reveal_strlit("if");
        reveal_strlit("type");
        reveal_strlit("cast");
        reveal_strlit("when");
        reveal_strlit("with-meta");
        reveal_strlit("loop");
        reveal_strlit("while");
        reveal_strlit("let!");
        reveal_strlit("break");
        reveal_strlit("continue");
        reveal_strlit("fn");
        reveal_strlit("call");
        reveal_strlit("do");
        reveal_strlit("list");
        reveal_strlit("and");
        reveal_strlit("or");
        reveal_strlit("for");
        reveal_strlit("case");
        reveal_strlit("cond");
        reveal_strlit("let");
        reveal_strlit("darcy.hash-map/new");
        reveal_strlit("darcy.btree-map/new");
    }
    if items.len() == 1 {
        if let Some((sym, sym_span)) = atom_sym(&items[0]) {
            let cs = string_chars(&sym);
            proof {
                crate::text::lemma_first_index(cs@, ':');
            }
            match parse_symbol_ascription(cs.as_slice(), sym_span) {
                Ok(Some(e)) => return Ok(e),
                Ok(None) => {},
                Err(e) => return Err(e),
            }
        }
    }
    let (op, op_span) = match atom_sym(&items[0]) {
        Some(v) => v,
        None => return Err(err_at("call head must be a symbol", se_span(&items[0]))),
    };
    let opc = string_chars(&op);
    if sym_eq(&op, ".") {
        if items.len() < 3 {
            return Err(err_at("interop form is (. obj member [args...])", op_span));
        }
        proof {
            assert(op@ == "."@);
            assert(op@.len() == 1);
            assert(form_shape_error(op@, items@.len() as int) is None);
        }
        let base = match parse_expr(&items[1]) {
            Ok(e) => e,
            Err(e) => return Err(e),
        };
        let (member, msp) = match atom_sym(&items[2]) {
            Some(v) => v,
            None => return Err(err_at("member name must be a symbol", se_span(&items[2]))),
        };
        let mc = string_chars(&member);
        let member = match ensure_member_ident(mc.as_slice(), msp) {
            Ok(m) => m,
            Err(e) => return Err(e),
        };
        let args = match parse_exprs_from(items, 3) {
            Ok(a) => a,
            Err(e) => return Err(e),
        };
        return Ok(Expr::MethodCall { base: Box::new(base), method: rust_value_name_of(&member), args, span });
    }
    if opc.len() > 0 && opc[0] == '.' {
        if opc.len() == 1 || items.len() < 2 {
            return Err(err_at("interop form is (.method obj [args...])", op_span));
        }
        let method = sub_chars(opc.as_slice(), 1, opc.len());
        let method = match ensure_member_ident(method.as_slice(), op_span) {
            Ok(m) => m,
            Err(e) => return Err(e),
        };
        let base = match parse_expr(&items[1]) {
            Ok(e) => e,
            Err(e) => return Err(e),
        };
        let args = match parse_exprs_from(items, 2) {
            Ok(a) => a,
            Err(e) => return Err(e),
        };
        return Ok(Expr::MethodCall { base: Box::new(base), method: rust_value_name_of(&method), args, span });
    }
    if sym_eq(&op, "if") {
        if items.len() < 3 || items.len() > 4 {
            return Err(err_at("if form is (if cond then [else])", op_span));
        }
        let cond = match parse_expr(&items[1]) {
            Ok(e) => e,
            Err(e) => return Err(e),
        };
        let then_br = match parse_expr(&items[2]) {
            Ok(e) => e,
            Err(e) => return Err(e),
        };
        let else_br = if items.len() == 4 {
            match parse_expr(&items[3]) {
                Ok(e) => Some(Box::new(e)),
                Err(e) => return Err(e),
            }
        } else {
            None
        };
        return Ok(Expr::If { cond: Box::new(cond), then_br: Box::new(then_br), else_br, span });
    }
    if sym_eq(&op, "type") || sym_eq(&op, "cast") {
        let is_cast = sym_eq(&op, "cast");
        if items.len() != 3 {
            return Err(err_at(if is_cast { "cast form is (cast expr Type)" } else { "type form is (type expr Type)" }, op_span));
        }
        let expr = match parse_expr(&items[1]) {
            Ok(e) => e,
            Err(e) => return Err(e),
        };
        let (ty_sym, ty_sp) = match atom_sym(&items[2]) {
            Some(v) => v,
            None => return Err(err_at(if is_cast { "cast type must be a symbol" } else { "type name must be a symbol" }, se_span(&items[2]))),
        };
        let tc = string_chars(&ty_sym);
        let ann = match parse_type_from_sym_checked(tc.as_slice(), ty_sp) {
            Ok(t) => t,
            Err(e) => return Err(e),
        };
        if is_cast {
            return Ok(Expr::Cast { expr: Box::new(expr), ann, span });
        }
        return Ok(Expr::Ascribe { expr: Box::new(expr), ann, span });
    }
    if sym_eq(&op, "and") || sym_eq(&op, "or") {
        return parse_and_or(items, span, sym_eq(&op, "and"));
    }
    if sym_eq(&op, "when") {
        if items.len() < 3 {
            return Err(err_at("when form is (when cond expr ...)", op_span));
        }
        let cond = match parse_expr(&items[1]) {
            Ok(e) => e,
            Err(e) => return Err(e),
        };
        let body = if items.len() == 3 {
            match parse_expr(&items[2]) {
                Ok(e) => e,
                Err(e) => return Err(e),
            }
        } else {
            match parse_exprs_from(items, 2) {
                Ok(exprs) => Expr::Do { exprs, span },
                Err(e) => return Err(e),
            }
        };
        return Ok(Expr::If { cond: Box::new(cond), then_br: Box::new(body), else_br: None, span });
    }
    if sym_eq(&op, "with-meta") {
        if items.len() != 3 {
            return Err(err_at("with-meta form is (with-meta form meta)", op_span));
        }
        return parse_expr(&items[1]);
    }
    if sym_eq(&op, "loop") {
        if items.len() < 2 {
            return Err(err_at("loop form is (loop expr ...)", op_span));
        }
        assert(op@[0] != "type"@[0] && op@[0] != "cast"@[0] && op@[0] != "when"@[0] && op@[0] != "call"@[0]);
        assert(op@[1] != "let!"@[1]);
        return match parse_body_expr(items, 1, span) {
            Ok(body) => Ok(Expr::Loop { body: Box::new(body), span }),
            Err(e) => Err(e),
        };
    }
    if sym_eq(&op, "while") {
        if items.len() < 3 {
            return Err(err_at("while form is (while cond expr ...)", op_span));
        }
        let cond = match parse_expr(&items[1]) {
            Ok(e) => e,
            Err(e) => return Err(e),
        };
        return match parse_body_expr(items, 2, span) {
            Ok(body) => Ok(Expr::While { cond: Box::new(cond), body: Box::new(body), span }),
            Err(e) => Err(e),
        };
    }
    if sym_eq(&op, "for") {
        return parse_for(items, span, op_span);
    }
    if sym_eq(&op, "let!") {
        if items.len() != 3 {
            return Err(err_at("let! form is (let! name expr)", op_span));
        }
        let (name, sp) = match atom_sym(&items[1]) {
            Some(v) => v,
            None => return Err(err_at("let! binding must be a symbol", se_span(&items[1]))),
        };
        let nc = string_chars(&name);
        let name = match ensure_lisp_ident(nc.as_slice(), sp, "let! binding") {
            Ok(n) => n,
            Err(e) => return Err(e),
        };
        let expr = match parse_expr(&items[2]) {
            Ok(e) => e,
            Err(e) => return Err(e),
        };
        return Ok(Expr::Assign { name: rust_value_name_of(&name), expr: Box::new(expr), span });
    }
    if sym_eq(&op, "break") {
        if items.len() > 2 {
            return Err(err_at("break form is (break [expr])", op_span));
        }
        let value = if items.len() == 2 {
            match parse_expr(&items[1]) {
                Ok(e) => Some(Box::new(e)),
                Err(e) => return Err(e),
            }
        } else {
            None
        };
        return Ok(Expr::Break { value, span });
    }
    if sym_eq(&op, "continue") {
        if items.len() != 1 {
            return Err(err_at("continue form is (continue)", op_span));
        }
        return Ok(Expr::Continue { span });
    }
    if starts_with_lit(opc.as_slice(), "darcy.hash-map/new") || starts_with_lit(opc.as_slice(), "darcy.btree-map/new") {
        return parse_map_ctor(items, span, opc.as_slice(), op_span);
    }
    if sym_eq(&op, "case") {
        assert(op@[3] != "cast"@[3]);
        return parse_match(items, span);
    }
    if sym_eq(&op, "cond") {
        assert(op@[1] != "cast"@[1] && op@[1] != "call"@[1]);
        return parse_cond(items, span);
    }
    if sym_eq(&op, "let") {
        return parse_let_form(items, span, op_span);
    }
    if sym_eq(&op, "fn") {
        if items.len() < 3 {
            return Err(err_at("fn form is (fn [params] expr ...)", op_span));
        }
        let params = match parse_params(&items[1]) {
            Ok(p) => p,
            Err(e) => return Err(e),
        };
        return match parse_body_expr(items, 2, span) {
            Ok(body) => Ok(Expr::Lambda { params, body: Box::new(body), span }),
            Err(e) => Err(e),
        };
    }
    if sym_eq(&op, "call") {
        if items.len() < 2 {
            return Err(err_at("call form is (call f arg ...)", op_span));
        }
        let func = match parse_expr(&items[1]) {
            Ok(e) => e,
            Err(e) => return Err(e),
        };
        return match parse_exprs_from(items, 2) {
            Ok(args) => Ok(Expr::CallDyn { func: Box::new(func), args, span }),
            Err(e) => Err(e),
        };
    }
    if sym_eq(&op, "do") {
        if items.len() < 2 {
            return Err(err_at("do form is (do expr ...)", op_span));
        }
        return match parse_exprs_from(items, 1) {
            Ok(exprs) => Ok(Expr::Do { exprs, span }),
            Err(e) => Err(e),
        };
    }
    if sym_eq(&op, "list") {
        return match parse_exprs_from(items, 1) {
            Ok(elems) => Ok(Expr::VecLit { elems, span, ann: None }),
            Err(e) => Err(e),
        };
    }
    let head_ty = parse_type_from_sym(opc.as_slice());
    let is_vec = match &head_ty {
        Ty::Vec(_) => true,
        _ => false,
    };
    let is_set = match &head_ty {
        Ty::SetOf(_) => true,
        _ => false,
    };
    if is_vec || is_set {
        let lit_span = Span { start: op_span.start, end: span.end };
        return match parse_exprs_from(items, 1) {
            Ok(elems) => if is_vec {
                Ok(Expr::VecLit { elems, span: lit_span, ann: Some(head_ty) })
            } else {
                Ok(Expr::SetLit { elems, span: lit_span, ann: Some(head_ty) })
            },
            Err(e) => Err(e),
        };
    }
    if sym_eq(&op, "set") || sym_eq(&op, "hashset") {
        return match parse_exprs_from(items, 1) {
            Ok(elems) => Ok(Expr::SetLit { elems, span, ann: None }),
            Err(e) => Err(e),
        };
    }
    if !is_builtin_op(&op) {
        let checked = if contains_char(opc.as_slice(), '/') {
            ensure_qualified_name(opc.as_slice(), op_span, "call name", true)
        } else {
            ensure_callable_ident(opc.as_slice(), op_span, "call name", false)
        };
        if let Err(e) = checked {
            return Err(e);
        }
    }
    match parse_exprs_from(items, 1) {
        Ok(args) => Ok(Expr::Call { op, args, span }),
        Err(e) => Err(e),
    }
}

/// A member name: letters, digits and '_', not starting with a digit, or
/// else kebab-case.
/// Every character of `s` is a letter, a digit or `_`.
pub open spec fn all_word_chars(s: Seq<char>) -> bool {
    forall|i: int| 0 <= i < s.len() ==> crate::text::is_alnum(#[trigger] s[i]) || s[i] == '_'
}

fn ensure_member_ident(name: &[char], span: Span) -> (r: DslResult<String>)
    ensures
        all_word_chars(name@) && name@.len() > 0 && '0' <= name@[0] && name@[0] <= '9' ==> r is Err
            && r->Err_0.message@ == "member identifier cannot start with a digit"@ && r->Err_0.span == Some(span),
        all_word_chars(name@) && !(name@.len() > 0 && '0' <= name@[0] && name@[0] <= '9') ==> (r matches Ok(m) && m@ == name@),
        !all_word_chars(name@) ==> (is_lisp_ident_spec(name@) ==> (r matches Ok(m) && m@ == name@))
            && (!is_lisp_ident_spec(name@) ==> r is Err
                && r->Err_0.message@ == "keyword must be lowercase lisp-style (kebab-case)"@ && r->Err_0.span == Some(span)),
{
    let mut all_word = true;
    let mut i: usize = 0;
    while i < name.len()
        invariant
            i <= name@.len(),
            all_word == forall|j: int| 0 <= j < i ==> crate::text::is_alnum(#[trigger] name@[j]) || name@[j] == '_',
        decreases name@.len() - i,
    {
        let c = name[i];
        if !(crate::text::alnum(c) || c == '_') {
            all_word = false;
        }
        i = i + 1;
    }
    if all_word {
        if name.len() > 0 && '0' <= name[0] && name[0] <= '9' {
            return Err(err_at("member identifier cannot start with a digit", span));
        }
        return Ok(string_from_chars(name));
    }
    if !is_lisp_ident(name) {
        return Err(err_at("keyword must be lowercase lisp-style (kebab-case)", span));
    }
    Ok(string_from_chars(name))
}

/// `(and a b ...)` and `(or a b ...)`: each operand bound to a temporary
/// named after the form's line and the operand's position, then tested.
fn parse_and_or(items: &Vec<Sexp>, span: Span, is_and: bool) -> (r: DslResult<Expr>)
    ensures
        items@.len() <= 1 && is_and ==> r == Ok::<Expr, Diag>(Expr::Bool(true, span)),
        items@.len() <= 1 && !is_and ==> r == Ok::<Expr, Diag>(Expr::Unit(span)),
        items@.len() > 2 ==> (r matches Ok(e) ==> e is Let),
        items@.len() >= 2 ==> (r matches Ok(e) ==> and_or_reads(is_and, items@, e)),
    decreases items, 2nat,
{
    if items.len() <= 1 {
        return Ok(if is_and { Expr::Bool(true, span) } else { Expr::Unit(span) });
    }
    let exprs = match parse_exprs_from(items, 1) {
        Ok(v) => v,
        Err(e) => return Err(e),
    };
    let ghost ops = exprs@;
    let n = exprs.len();
    let mut exprs = exprs;
    let mut acc = match exprs.pop() {
        Some(e) => e,
        None => return Ok(Expr::Unit(span)),
    };
    let mut depth = n - 1;
    proof {
        assert(ops.subrange(depth as int, n as int) =~= seq![acc]);
    }
    while depth > 0
        invariant
            depth <= n,
            exprs@.len() == depth,
            n == items@.len() - 1,
            n == ops.len(),
            depth < n - 1 ==> acc is Let,
            exprs@ == ops.subrange(0, depth as int),
            and_or_shape(is_and, ops.subrange(depth as int, n as int), acc),
        decreases depth,
    {
        depth = depth - 1;
        let first = match exprs.pop() {
            Some(e) => e,
            None => return Ok(acc),
        };
        let line = usize_to_string(span.start.line);
        let d = usize_to_string(depth);
        let prefix = if is_and { "and-temp-" } else { "or-temp-" };
        let name = crate::text::concat4(prefix, line.as_str(), "-", d.as_str());
        let rust_name = rust_value_name_of(&name);
        let binding = LetBinding { name, rust_name: copy(&rust_name), ann: None, expr: first, span };
        let var1 = Expr::Var(copy(&rust_name), span);
        let var2 = Expr::Var(rust_name, span);
        let if_expr = if is_and {
            Expr::If { cond: Box::new(var1), then_br: Box::new(acc), else_br: Some(Box::new(var2)), span }
        } else {
            Expr::If { cond: Box::new(var1), then_br: Box::new(var2), else_br: Some(Box::new(acc)), span }
        };
        let mut bindings: Vec<LetBinding> = Vec::new();
        bindings.push(binding);
        let ghost prev = acc;
        acc = Expr::Let { bindings, body: Box::new(if_expr), span };
        proof {
            let tail = ops.subrange(depth as int, n as int);
            assert(tail[0] == first);
            assert(tail.drop_first() =~= ops.subrange(depth + 1, n as int));
        }
    }
    proof {
        assert(ops.subrange(0, n as int) =~= ops);
        assert forall|k: int| 0 <= k < ops.len() implies expr_parse(#[trigger] items@[1 + k], Ok(ops[k])) by {}
    }
    Ok(acc)
}

/// `e` is what `(and ...)` (or, with `is_and` false, `(or ...)`) reads as
/// for the operand forms `items[1..]`: operands that read as `ops`, joined
/// as `and_or_shape` says.
pub open spec fn and_or_reads(is_and: bool, items: Seq<Sexp>, e: Expr) -> bool
    decreases items, 0nat,
{
    exists|ops: Seq<Expr>| {
        &&& ops.len() + 1 == items.len()
        &&& (forall|k: int| 0 <= k < ops.len() ==> expr_parse(#[trigger] items[1 + k], Ok(ops[k])))
        &&& #[trigger] and_or_shape(is_and, ops, e)
    }
}

/// How `and` and `or` join their operands `ops`: a single operand stands
/// for itself; otherwise the first is bound to a temporary, which an `if`
/// tests. For `and` the `then` branch joins the remaining operands and the
/// `else` branch is the temporary; for `or` the `then` branch is the
/// temporary and the `else` branch joins the rest.
pub open spec fn and_or_shape(is_and: bool, ops: Seq<Expr>, e: Expr) -> bool
    decreases ops.len(),
{
    if ops.len() == 0 {
        false
    } else if ops.len() == 1 {
        e == ops[0]
    } else {
        match e {
            Expr::Let { bindings, body, .. } => {
                &&& bindings@.len() == 1
                &&& bindings@[0].expr == ops[0]
                &&& match *body {
                    Expr::If { cond, then_br, else_br: Some(el), .. } => {
                        &&& (*cond matches Expr::Var(t, _) && t@ == bindings@[0].rust_name@)
                        &&& if is_and {
                            &&& and_or_shape(is_and, ops.drop_first(), *then_br)
                            &&& (*el matches Expr::Var(t, _) && t@ == bindings@[0].rust_name@)
                        } else {
                            &&& (*then_br matches Expr::Var(t, _) && t@ == bindings@[0].rust_name@)
                            &&& and_or_shape(is_and, ops.drop_first(), *el)
                        }
                    },
                    _ => false,
                }
            },
            _ => false,
        }
    }
}

fn is_range_form(se: &Sexp) -> (b: bool) {
    match se {
        Sexp::List(items, _) => {
            if items.len() == 0 {
                return false;
            }
            match atom_sym(&items[0]) {
                Some((head, _)) => sym_eq(&head, "range") || sym_eq(&head, "range-incl"),
                None => false,
            }
        },
        _ => false,
    }
}

/// `(range start end [step])` or `(range-incl start end [step])`.
fn parse_range_expr(se: &Sexp) -> (r: DslResult<RangeExpr>)
    decreases se, 7nat,
{
    let (items, span) = match se {
        Sexp::List(v, sp) => (v, *sp),
        _ => return Err(err_at("range form must be a list", se_span(se))),
    };
    if items.len() == 0 {
        return Err(err_at("range form is (range start end [step])", span));
    }
    let (head, head_sp) = match atom_sym(&items[0]) {
        Some(v) => v,
        None => return Err(err_at("range head must be a symbol", se_span(&items[0]))),
    };
    let inclusive = if sym_eq(&head, "range") {
        false
    } else if sym_eq(&head, "range-incl") {
        true
    } else {
        return Err(err_at("for expects (range ...) or (range-incl ...)", head_sp));
    };
    if items.len() < 3 || items.len() > 4 {
        return Err(err_at("range form is (range start end [step])", head_sp));
    }
    let start = match parse_expr(&items[1]) {
        Ok(e) => e,
        Err(e) => return Err(e),
    };
    let end = match parse_expr(&items[2]) {
        Ok(e) => e,
        Err(e) => return Err(e),
    };
    let step = if items.len() == 4 {
        match parse_expr(&items[3]) {
            Ok(e) => Some(Box::new(e)),
            Err(e) => return Err(e),
        }
    } else {
        None
    };
    Ok(RangeExpr { start: Box::new(start), end: Box::new(end), step, inclusive, span })
}

/// `(for name iterable body ...)`.
fn parse_for(items: &Vec<Sexp>, span: Span, op_span: Span) -> (r: DslResult<Expr>)
    ensures
        items@.len() < 4 ==> r is Err && r->Err_0.message@ == "for form is (for name iterable expr ...)"@,
        r matches Ok(e) ==> e is For,
    decreases items, 2nat,
{
    if items.len() < 4 {
        return Err(err_at("for form is (for name iterable expr ...)", op_span));
    }
    let (name, sp) = match atom_sym(&items[1]) {
        Some(v) => v,
        None => return Err(err_at("for binding must be a symbol", se_span(&items[1]))),
    };
    let nc = string_chars(&name);
    let name = match ensure_lisp_ident(nc.as_slice(), sp, "for binding") {
        Ok(n) => n,
        Err(e) => return Err(e),
    };
    let iter = if is_range_form(&items[2]) {
        match parse_range_expr(&items[2]) {
            Ok(rg) => Iterable::Range(rg),
            Err(e) => return Err(e),
        }
    } else {
        match parse_expr(&items[2]) {
            Ok(e) => Iterable::Expr(Box::new(e)),
            Err(e) => return Err(e),
        }
    };
    match parse_body_expr(items, 3, span) {
        Ok(body) => Ok(Expr::For { var: rust_value_name_of(&name), iter, body: Box::new(body), span }),
        Err(e) => Err(e),
    }
}

/// `darcy.hash-map/new`, `darcy.btree-map/new`, optionally with `<K,V>`,
/// followed by `[key value]` entries.
fn parse_map_ctor(items: &Vec<Sexp>, span: Span, op: &[char], op_span: Span) -> (r: DslResult<Expr>)
    requires
        items@.len() >= 1,
    ensures
        r matches Ok(e) ==> e matches Expr::MapLit { span: msp, .. } && msp == span,
    decreases items, 2nat,
{
    let hash_prefix = lit_chars("darcy.hash-map/new<");
    let btree_prefix = lit_chars("darcy.btree-map/new<");
    let is_hash_ann = crate::text::starts_with(op, hash_prefix.as_slice());
    let is_btree_ann = !is_hash_ann && crate::text::starts_with(op, btree_prefix.as_slice());
    let (kind, ann) = if is_hash_ann || is_btree_ann {
        let plen = if is_hash_ann { hash_prefix.len() } else { btree_prefix.len() };
        if op.len() == plen || op[op.len() - 1] != '>' {
            return Err(err_at("map constructor type annotation must end with '>'", op_span));
        }
        let inner = sub_chars(op, plen, op.len() - 1);
        let args = type_args(inner.as_slice());
        if args.len() != 2 {
            return Err(err_at(if is_hash_ann { "map type annotation must be hash-map<K,V>" } else { "map type annotation must be btree-map<K,V>" }, op_span));
        }
        let k = match parse_type_from_sym_checked(args[0].as_slice(), op_span) {
            Ok(t) => t,
            Err(e) => return Err(e),
        };
        let v = match parse_type_from_sym_checked(args[1].as_slice(), op_span) {
            Ok(t) => t,
            Err(e) => return Err(e),
        };
        (if is_hash_ann { MapKind::Hash } else { MapKind::BTree }, Some((k, v)))
    } else if chars_is(op, "darcy.hash-map/new") {
        (MapKind::Hash, None)
    } else {
        (MapKind::BTree, None)
    };
    let mut entries: Vec<(Expr, Expr)> = Vec::new();
    let mut i: usize = 1;
    while i < items.len()
        invariant
            1 <= i <= items@.len(),
        decreases items@.len() - i,
    {
        let item = &items[i];
        match item {
            Sexp::Brack(pair, pspan) => {
                if pair.len() != 2 {
                    return Err(err_at("map entry must be [key value]", *pspan));
                }
                let key = match parse_expr(&pair[0]) {
                    Ok(e) => e,
                    Err(e) => return Err(e),
                };
                let val = match parse_expr(&pair[1]) {
                    Ok(e) => e,
                    Err(e) => return Err(e),
                };
                entries.push((key, val));
            },
            _ => return Err(err_at("map entry must be [key value]", se_span(item))),
        }
        i = i + 1;
    }
    Ok(Expr::MapLit { kind, entries, span, ann })
}

/// `(case expr arm ...)`: arms are `(_ body)` or
/// `(variant (field name) ... body)`.
fn parse_match(items: &Vec<Sexp>, span: Span) -> (r: DslResult<Expr>)
    ensures
        items@.len() < 3 ==> r is Err && r->Err_0.message@ == "case form is (case expr (Variant (...) expr) ...)"@
            && r->Err_0.span == Some(span),
        r matches Ok(e) ==> e is Match,
    decreases items, 2nat,
{
    if items.len() < 3 {
        return Err(err_at("case form is (case expr (Variant (...) expr) ...)", span));
    }
    let scrutinee = match parse_expr(&items[1]) {
        Ok(e) => e,
        Err(e) => return Err(e),
    };
    let mut arms: Vec<MatchArm> = Vec::new();
    let mut i: usize = 2;
    while i < items.len()
        invariant
            2 <= i <= items@.len(),
        decreases items@.len() - i,
    {
        let arm = &items[i];
        match arm {
            Sexp::List(aitems, aspan) => {
                match parse_arm(aitems, *aspan) {
                    Ok(a) => arms.push(a),
                    Err(e) => return Err(e),
                }
            },
            _ => return Err(err_at("case arm must be a list", se_span(arm))),
        }
        i = i + 1;
    }
    Ok(Expr::Match { scrutinee: Box::new(scrutinee), arms, span })
}

/// For a binding list of four or more symbols in an even number, such as
/// `(base b height h)`, the same bindings written as separate pairs:
/// `(base b) (height h)`.
/// The hint text for the symbol pairs of `bind` up to position `n`: each
/// pair in brackets, separated by spaces.
pub open spec fn pairs_text(bind: Seq<Sexp>, n: int) -> Seq<char>
    decreases n,
{
    if n < 2 {
        seq![]
    } else {
        let before = pairs_text(bind, n - 2);
        let one = "("@ + bind[n - 2]->Atom_0->Sym_0@ + " "@ + bind[n - 1]->Atom_0->Sym_0@ + ")"@;
        if n == 2 { one } else { before + " "@ + one }
    }
}

fn grouped_bindings_hint(bind: &Vec<Sexp>) -> (r: Option<String>)
    ensures
        r is Some <==> bind@.len() >= 4 && bind@.len() % 2 == 0
            && forall|j: int| 0 <= j < bind@.len() ==> list_head(seq![#[trigger] bind@[j]]) is Some,
        r matches Some(t) ==> t@ == pairs_text(bind@, bind@.len() as int),
{
    if bind.len() < 4 || bind.len() % 2 != 0 {
        return None;
    }
    let mut out = String::new();
    let mut i: usize = 0;
    while i + 1 < bind.len()
        invariant
            bind@.len() >= 4,
            bind@.len() % 2 == 0,
            i % 2 == 0,
            i <= bind@.len(),
            forall|j: int| 0 <= j < i ==> list_head(seq![#[trigger] bind@[j]]) is Some,
            forall|j: int| 0 <= j < i ==> (#[trigger] bind@[j]) matches Sexp::Atom(TokKind::Sym(_), _),
            out@ == pairs_text(bind@, i as int),
        decreases bind@.len() - i,
    {
        let (f, _) = match atom_sym(&bind[i]) {
            Some(v) => v,
            None => {
                assert(list_head(seq![bind@[i as int]]) is None);
                return None;
            },
        };
        let (n, _) = match atom_sym(&bind[i + 1]) {
            Some(v) => v,
            None => {
                assert(list_head(seq![bind@[i + 1]]) is None);
                return None;
            },
        };
        proof {
            assert(list_head(seq![bind@[i as int]]) is Some);
            assert(list_head(seq![bind@[i + 1]]) is Some);
        }
        if i > 0 {
            out.append(" ");
        }
        out.append("(");
        out.append(f.as_str());
        out.append(" ");
        out.append(n.as_str());
        out.append(")");
        proof {
            reveal_strlit("(");
            reveal_strlit(" ");
            reveal_strlit(")");
            assert(out@ =~= pairs_text(bind@, i + 2));
        }
        i = i + 2;
    }
    Some(out)
}

#[verifier::spinoff_prover]
#[verifier::rlimit(40)]
fn parse_arm(aitems: &Vec<Sexp>, aspan: Span) -> (r: DslResult<MatchArm>)
    decreases aitems, 2nat,
{
    if aitems.len() < 2 {
        return Err(err_at("case arm must have a pattern and body", aspan));
    }
    let (head, head_sp) = match atom_sym(&aitems[0]) {
        Some(v) => v,
        None => return Err(err_at("case arm head must be a symbol", se_span(&aitems[0]))),
    };
    if sym_eq(&head, "_") {
        if aitems.len() != 2 {
            return Err(err_at("wildcard case arm is (_ expr)", aspan));
        }
        return match parse_expr(&aitems[1]) {
            Ok(body) => Ok(MatchArm { pat: MatchPat::Wildcard(head_sp), body, span: aspan }),
            Err(e) => Err(e),
        };
    }
    let mut bindings: Vec<(String, String, Span)> = Vec::new();
    let mut idx: usize = 1;
    while idx < aitems.len() - 1
        invariant
            1 <= idx < aitems@.len(),
        decreases aitems@.len() - idx,
    {
        let pair = match &aitems[idx] {
            Sexp::List(bind, _) => {
                if bind.len() == 2 {
                    match (atom_sym(&bind[0]), atom_sym(&bind[1])) {
                        (Some(f), Some(n)) => Some((f, n)),
                        _ => None,
                    }
                } else {
                    None
                }
            },
            _ => None,
        };
        let ((field, fsp), (name, nsp)) = match pair {
            Some(p) => p,
            None => {
                if let Sexp::List(bind, bsp) = &aitems[idx] {
                    if let Some(pairs) = grouped_bindings_hint(bind) {
                        let msg = concat3("case arm bindings are separate pairs: write ", pairs.as_str(), "");
                        return Err(err_owned(msg, *bsp));
                    }
                }
                break;
            },
        };
        let fc = string_chars(&field);
        let field = match ensure_lisp_ident(fc.as_slice(), fsp, "field name") {
            Ok(f) => f,
            Err(e) => return Err(e),
        };
        let name = if sym_eq(&name, "_") {
            String::from_str("_")
        } else {
            let nc = string_chars(&name);
            match ensure_lisp_ident(nc.as_slice(), nsp, "binding name") {
                Ok(n) => rust_value_name_of(&n),
                Err(e) => return Err(e),
            }
        };
        bindings.push((field, name, Span { start: fsp.start, end: nsp.end }));
        idx = idx + 1;
    }
    let hc = string_chars(&head);
    let head = if contains_char(hc.as_slice(), '/') {
        ensure_qualified_name(hc.as_slice(), head_sp, "variant name", false)
    } else {
        ensure_lisp_ident(hc.as_slice(), head_sp, "variant name")
    };
    let head = match head {
        Ok(h) => h,
        Err(e) => return Err(e),
    };
    match parse_expr(&aitems[idx]) {
        Ok(body) => Ok(MatchArm {
            pat: MatchPat::Variant { name: head, bindings, span: Span { start: head_sp.start, end: aspan.end } },
            body,
            span: aspan,
        }),
        Err(e) => Err(e),
    }
}

/// `(cond (test expr) ... [(else expr)])` as nested `if`s; without an
/// `else` the last test falls through to `nil`.
fn parse_cond(items: &Vec<Sexp>, span: Span) -> (r: DslResult<Expr>)
    ensures
        items@.len() < 2 ==> r is Err && r->Err_0.message@ == "cond form is (cond (test expr) ...)"@
            && r->Err_0.span == Some(span),
    decreases items, 2nat,
{
    if items.len() < 2 {
        return Err(err_at("cond form is (cond (test expr) ...)", span));
    }
    let mut clauses: Vec<(Expr, Expr, Span, bool)> = Vec::new();
    let mut i: usize = 1;
    while i < items.len()
        invariant
            1 <= i <= items@.len(),
        decreases items@.len() - i,
    {
        let clause = &items[i];
        match clause {
            Sexp::List(citems, cspan) => {
                if citems.len() != 2 {
                    return Err(err_at("cond clause must be (test expr)", *cspan));
                }
                let is_else = match atom_sym(&citems[0]) {
                    Some((h, _)) => sym_eq(&h, "else"),
                    None => false,
                };
                let test = if is_else {
                    Expr::Bool(true, se_span(&citems[0]))
                } else {
                    match parse_cond_part(citems, 0) {
                        Ok(e) => e,
                        Err(e) => return Err(e),
                    }
                };
                let body = match parse_cond_part(citems, 1) {
                    Ok(e) => e,
                    Err(e) => return Err(e),
                };
                clauses.push((test, body, *cspan, is_else));
            },
            _ => return Err(err_at("cond clause must be a list", se_span(clause))),
        }
        i = i + 1;
    }
    let mut any_else = false;
    let mut k: usize = 0;
    while k < clauses.len()
        invariant
            k <= clauses@.len(),
        decreases clauses@.len() - k,
    {
        if clauses[k].3 {
            any_else = true;
        }
        k = k + 1;
    }
    if any_else {
        let last_else = clauses.len() > 0 && clauses[clauses.len() - 1].3;
        if !last_else {
            return Err(err_at("cond 'else' clause must be last", span));
        }
    }
    let mut expr = Expr::Unit(span);
    while clauses.len() > 0
        invariant
            true,
        decreases clauses@.len(),
    {
        let (test, body, cspan, is_else) = match clauses.pop() {
            Some(c) => c,
            None => break,
        };
        if is_else {
            expr = body;
        } else {
            expr = Expr::If { cond: Box::new(test), then_br: Box::new(body), else_br: Some(Box::new(expr)), span: cspan };
        }
    }
    Ok(expr)
}

fn parse_cond_part(citems: &Vec<Sexp>, k: usize) -> (r: DslResult<Expr>)
    requires
        k < citems@.len(),
    decreases citems, 0nat,
{
    parse_expr(&citems[k])
}

/// `(let [bindings] ... body ...)`: consecutive binding vectors, then the body.
fn parse_let_form(items: &Vec<Sexp>, span: Span, op_span: Span) -> (r: DslResult<Expr>)
    ensures
        items@.len() < 3 ==> r is Err && r->Err_0.message@ == "let form is (let [bindings] expr ...)"@,
        r matches Ok(e) ==> e is Let,
    decreases items, 2nat,
{
    if items.len() < 3 {
        return Err(err_at("let form is (let [bindings] expr ...)", op_span));
    }
    let mut all: Vec<LetBinding> = Vec::new();
    let mut body_start: usize = 1;
    while body_start < items.len()
        invariant
            items@.len() >= 3,
            1 <= body_start <= items@.len(),
        decreases items@.len() - body_start,
    {
        let mut part = match &items[body_start] {
            Sexp::Brack(bitems, bsp) => match parse_let_bindings(bitems, *bsp) {
                Ok(p) => p,
                Err(e) => return Err(e),
            },
            _ => break,
        };
        all.append(&mut part);
        body_start = body_start + 1;
    }
    if all.len() == 0 || body_start >= items.len() {
        return Err(err_at("let form is (let [bindings] expr ...)", op_span));
    }
    match parse_body_expr(items, body_start, span) {
        Ok(body) => Ok(Expr::Let { bindings: all, body: Box::new(body), span }),
        Err(e) => Err(e),
    }
}

/// The bindings of one `[...]`: either all `(pattern expr)` pairs, or
/// alternating patterns and expressions.
fn parse_let_bindings(items: &Vec<Sexp>, se_sp: Span) -> (r: DslResult<Vec<LetBinding>>)
    decreases items, 2nat,
{
    let mut bindings: Vec<LetBinding> = Vec::new();
    let mut counter: u32 = 0;
    let mut all_pairs = true;
    let mut k: usize = 0;
    while k < items.len()
        invariant
            k <= items@.len(),
        decreases items@.len() - k,
    {
        match &items[k] {
            Sexp::List(v, _) => {
                if v.len() != 2 {
                    all_pairs = false;
                }
            },
            _ => {
                all_pairs = false;
            },
        }
        k = k + 1;
    }
    if all_pairs {
        let mut i: usize = 0;
        while i < items.len()
            invariant
                i <= items@.len(),
            decreases items@.len() - i,
        {
            match &items[i] {
                Sexp::List(pair, sp) => {
                    if pair.len() == 2 {
                        let expr = match parse_cond_part(pair, 1) {
                            Ok(e) => e,
                            Err(e) => return Err(e),
                        };
                        let out = match destructure_binding(&pair[0], expr, &mut counter) {
                            Ok(o) => o,
                            Err(e) => return Err(e),
                        };
                        let mut j: usize = 0;
                        let mut out = out;
                        let mut fixed: Vec<LetBinding> = Vec::new();
                        while out.len() > 0
                            invariant
                                true,
                            decreases out@.len(),
                        {
                            let b = match out.pop() {
                                Some(b) => b,
                                None => break,
                            };
                            fixed.push(LetBinding { span: *sp, ..b });
                        }
                        while fixed.len() > 0
                            invariant
                                true,
                            decreases fixed@.len(),
                        {
                            match fixed.pop() {
                                Some(b) => bindings.push(b),
                                None => break,
                            }
                        }
                        j = j + 1;
                    }
                },
                _ => {},
            }
            i = i + 1;
        }
        return Ok(bindings);
    }
    if items.len() % 2 != 0 {
        return Err(err_at("let bindings must be name/expr pairs", se_sp));
    }
    let mut idx: usize = 0;
    while idx < items.len()
        invariant
            idx <= items@.len(),
            idx % 2 == 0,
            items@.len() % 2 == 0,
        decreases items@.len() - idx,
    {
        let expr = match parse_expr(&items[idx + 1]) {
            Ok(e) => e,
            Err(e) => return Err(e),
        };
        let mut out = match destructure_binding(&items[idx], expr, &mut counter) {
            Ok(o) => o,
            Err(e) => return Err(e),
        };
        bindings.append(&mut out);
        idx = idx + 2;
    }
    Ok(bindings)
}

/// The next temporary name for a destructured value.
fn fresh_destruct_name(counter: &mut u32) -> (r: String)
    ensures
        r@ == "destruct-"@ + crate::text::decimal(*old(counter) as nat),
        *final(counter) == old(counter).wrapping_add(1),
{
    let d = usize_to_string(*counter as usize);
    let name = concat2("destruct-", d.as_str());
    *counter = counter.wrapping_add(1);
    name
}

/// Bindings for a pattern: a name (with an optional type), `_`, or a vector
/// pattern whose elements are bound from the indexed parts of a temporary.
fn destructure_binding(pat: &Sexp, expr: Expr, counter: &mut u32) -> (r: DslResult<Vec<LetBinding>>)
    decreases pat,
{
    match pat {
        Sexp::Atom(TokKind::Sym(s), sp) => {
            if sym_eq(s, "_") {
                let tmp = fresh_destruct_name(counter);
                let rust_name = rust_value_name_of(&tmp);
                let mut v: Vec<LetBinding> = Vec::new();
                v.push(LetBinding { name: tmp, rust_name, ann: None, expr, span: *sp });
                return Ok(v);
            }
            let sc = string_chars(s);
            match split_binding_name(sc.as_slice(), *sp) {
                Ok((base, ann)) => {
                    let rust_name = rust_value_name_of(&base);
                    let mut v: Vec<LetBinding> = Vec::new();
                    v.push(LetBinding { name: base, rust_name, ann, expr, span: *sp });
                    Ok(v)
                },
                Err(e) => Err(e),
            }
        },
        Sexp::Brack(items, sp) => destructure_items(items, *sp, expr, counter),
        Sexp::List(items, sp) => destructure_items(items, *sp, expr, counter),
        _ => Err(err_at("let binding name must be a symbol or vector pattern", se_span(pat))),
    }
}

/// A vector pattern: a temporary bound to `expr`, then each element bound
/// from `darcy.vec/get` of the temporary at its index.
fn destructure_items(items: &Vec<Sexp>, sp: Span, expr: Expr, counter: &mut u32) -> (r: DslResult<Vec<LetBinding>>)
    decreases items,
{
    let tmp = fresh_destruct_name(counter);
    let tmp_rust = rust_value_name_of(&tmp);
    let mut out: Vec<LetBinding> = Vec::new();
    out.push(LetBinding { name: tmp, rust_name: copy(&tmp_rust), ann: None, expr, span: sp });
    let mut i: usize = 0;
    while i < items.len()
        invariant
            i <= items@.len(),
        decreases items@.len() - i,
    {
        let item = &items[i];
        let item_sp = se_span(item);
        let mut args: Vec<Expr> = Vec::new();
        args.push(Expr::Var(copy(&tmp_rust), item_sp));
        args.push(Expr::Int(i as i64, item_sp));
        let get_expr = Expr::Call { op: String::from_str("darcy.vec/get"), args, span: item_sp };
        let mut nested = match destructure_binding(item, get_expr, counter) {
            Ok(n) => n,
            Err(e) => return Err(e),
        };
        out.append(&mut nested);
        i = i + 1;
    }
    Ok(out)
}

/// `name` or `name:Type`: the annotation is parsed first, then the name checked.
fn split_binding_name(name: &[char], sp: Span) -> (r: DslResult<(String, Option<Ty>)>)
    ensures
        match first_index(name@, ':') {
            None => (r is Ok <==> is_lisp_ident_spec(name@) && !is_reserved_spec(name@))
                && (r matches Ok((b, ann)) ==> b@ == name@ && ann is None)
                && (!is_lisp_ident_spec(name@) ==> r->Err_0.message@ == kebab_message("binding name"@)
                    && r->Err_0.span == Some(sp)),
            Some(i) => r matches Ok((b, ann)) ==> b@ == name@.subrange(0, i) && ann is Some,
        },
{
    let (base, ann) = match first_colon_split(name) {
        Some((b, t)) => match parse_type_from_sym_checked(t.as_slice(), sp) {
            Ok(ty) => (b, Some(ty)),
            Err(e) => return Err(e),
        },
        None => {
            let b = sub_chars(name, 0, name.len());
            assert(b@ =~= name@);
            (b, None)
        },
    };
    match ensure_lisp_ident(base.as_slice(), sp, "binding name") {
        Ok(b) => Ok((b, ann)),
        Err(e) => Err(e),
    }
}

/// A parameter list `[a b:i32 ...]`.
pub fn parse_params(se: &Sexp) -> (r: DslResult<Vec<Param>>)
    ensures
        match *se {
            Sexp::Brack(items, _) => (r is Ok ==> r->Ok_0@.len() == items@.len()),
            _ => r is Err && r->Err_0.message@ == "expected parameter list in [..]"@,
        },
{
    let items = match se {
        Sexp::Brack(items, _) => items,
        _ => return Err(err_at("expected parameter list in [..]", se_span(se))),
    };
    let mut out: Vec<Param> = Vec::new();
    let mut i: usize = 0;
    while i < items.len()
        invariant
            i <= items@.len(),
            out@.len() == i,
            *se is Brack,
            se->Brack_0 == *items,
        decreases items@.len() - i,
    {
        let (sym, sp) = match atom_sym(&items[i]) {
            Some(v) => v,
            None => return Err(err_at("parameter must be a symbol like o:Order", se_span(&items[i]))),
        };
        let sc = string_chars(&sym);
        let (name, ann) = match first_colon_split(sc.as_slice()) {
            Some((n, t)) => match parse_type_from_sym_checked(t.as_slice(), sp) {
                Ok(ty) => (n, Some(ty)),
                Err(e) => return Err(e),
            },
            None => (sc, None),
        };
        if name.len() == 0 {
            return Err(err_at("invalid parameter name", sp));
        }
        let name = match ensure_lisp_ident(name.as_slice(), sp, "parameter name") {
            Ok(n) => n,
            Err(e) => return Err(e),
        };
        let rust_name = rust_value_name_of(&name);
        out.push(Param { name, rust_name, ann, span: sp });
        i = i + 1;
    }
    Ok(out)
}

// ---------------------------------------------------------------------------
// Top-level forms

fn field_of(name: String, ty: Ty, span: Span) -> (f: Field)
    ensures
        f.name == name,
        f.ty == ty,
        f.span == span,
{
    let rust_name = rust_value_name_of(&name);
    Field { name, rust_name, ty, span }
}

/// Field declarations `items[from..]`: `(name Type)`, `(name)`, or
/// bracketed `[a:T b:U]`, `[a T b U]` or `[a]`.
fn parse_decl_fields(items: &Vec<Sexp>, from: usize, kind: &str) -> (r: DslResult<Vec<Field>>) {
    let name_kind = concat2(kind, " name");
    let mut out: Vec<Field> = Vec::new();
    let mut i = from;
    while i < items.len()
        invariant
            from <= i || i == from,
        decreases items@.len() - i,
    {
        let form = &items[i];
        match form {
            Sexp::List(fitems, fspan) => {
                if fitems.len() == 0 || fitems.len() > 2 {
                    let msg = concat2(kind, " must be (name Type), (name), [name:type], or [name:type ...]");
                    return Err(err_owned(msg, *fspan));
                }
                let (fname, fsp) = match atom_sym(&fitems[0]) {
                    Some(v) => v,
                    None => {
                        let msg = concat3("expected ", kind, " name");
                        return Err(err_owned(msg, se_span(&fitems[0])));
                    },
                };
                let fc = string_chars(&fname);
                let fname = match ensure_lisp_ident(fc.as_slice(), fsp, name_kind.as_str()) {
                    Ok(n) => n,
                    Err(e) => return Err(e),
                };
                let fty = if fitems.len() == 2 {
                    let (ty_s, _) = match atom_sym(&fitems[1]) {
                        Some(v) => v,
                        None => {
                            let msg = concat3("expected ", kind, " type");
                            return Err(err_owned(msg, se_span(&fitems[1])));
                        },
                    };
                    let tc = string_chars(&ty_s);
                    match parse_type_from_sym_checked(tc.as_slice(), *fspan) {
                        Ok(t) => t,
                        Err(e) => return Err(e),
                    }
                } else {
                    Ty::Unknown
                };
                out.push(field_of(fname, fty, Span { start: fsp.start, end: fspan.end }));
            },
            Sexp::Brack(bitems, bspan) => {
                if bitems.len() == 0 {
                    let msg = concat2(kind, " declaration cannot be empty");
                    return Err(err_owned(msg, *bspan));
                }
                let mut syms: Vec<(Vec<char>, Span)> = Vec::new();
                let mut k: usize = 0;
                while k < bitems.len()
                    invariant
                        k <= bitems@.len(),
                        syms@.len() == k,
                    decreases bitems@.len() - k,
                {
                    match atom_sym(&bitems[k]) {
                        Some((sym, sp)) => syms.push((string_chars(&sym), sp)),
                        None => {
                            let msg = concat2(kind, " declaration must use symbols");
                            return Err(err_owned(msg, se_span(&bitems[k])));
                        },
                    }
                    k = k + 1;
                }
                let mut k: usize = 0;
                while k < syms.len()
                    invariant
                        k <= syms@.len(),
                    decreases syms@.len() - k,
                {
                    let sp = syms[k].1;
                    if contains_char(syms[k].0.as_slice(), ':') {
                        let (name_raw, ty_raw) = match first_colon_split(syms[k].0.as_slice()) {
                            Some(p) => p,
                            None => {
                                let msg = concat3("invalid ", kind, " declaration");
                                return Err(err_owned(msg, sp));
                            },
                        };
                        if name_raw.len() == 0 || ty_raw.len() == 0 {
                            let msg = concat2(kind, " declaration must be name:Type");
                            return Err(err_owned(msg, sp));
                        }
                        let name = match ensure_lisp_ident(name_raw.as_slice(), sp, name_kind.as_str()) {
                            Ok(n) => n,
                            Err(e) => return Err(e),
                        };
                        let ty = match parse_type_from_sym_checked(ty_raw.as_slice(), sp) {
                            Ok(t) => t,
                            Err(e) => return Err(e),
                        };
                        out.push(field_of(name, ty, sp));
                    } else {
                        let name = match ensure_lisp_ident(syms[k].0.as_slice(), sp, name_kind.as_str()) {
                            Ok(n) => n,
                            Err(e) => return Err(e),
                        };
                        out.push(field_of(name, Ty::Unknown, sp));
                    }
                    k = k + 1;
                }
            },
            _ => {
                let msg = concat2(kind, " must be (name Type), (name), [name:type], or [name:type ...]");
                return Err(err_owned(msg, se_span(form)));
            },
        }
        i = i + 1;
    }
    Ok(out)
}

/// Checks that `items` starts with the symbol `head`, and gives the name
/// symbol after it.
fn head_and_name(items: &Vec<Sexp>, head: &str, head_err: &str, kw_err: &str, name_err: &str) -> (r: DslResult<(String, Span)>)
    requires
        items@.len() >= 2,
    ensures
        match list_head(items@) {
            None => r is Err && r->Err_0.message@ == head_err@ && r->Err_0.span == Some(sexp_span(items@[0])),
            Some((h, _)) => if h != head@ {
                r is Err && r->Err_0.message@ == kw_err@ && r->Err_0.span == Some(sexp_span(items@[0]))
            } else {
                match items@[1] {
                    Sexp::Atom(TokKind::Sym(n), nsp) => r matches Ok((m, msp)) && m@ == n@ && msp == nsp,
                    _ => r is Err && r->Err_0.message@ == name_err@ && r->Err_0.span == Some(sexp_span(items@[1])),
                }
            },
        },
{
    let (h, _) = match atom_sym(&items[0]) {
        Some(v) => v,
        None => return Err(err_at(head_err, se_span(&items[0]))),
    };
    if !sym_eq(&h, head) {
        return Err(err_at(kw_err, se_span(&items[0])));
    }
    match atom_sym(&items[1]) {
        Some(v) => Ok(v),
        None => Err(err_at(name_err, se_span(&items[1]))),
    }
}

/// `(defrecord name field ...)`.
pub fn parse_struct(se: &Sexp) -> (r: DslResult<StructDef>)
    ensures
        !(se is List) ==> r is Err && r->Err_0.message@ == "expected (defrecord ...)"@,
        r matches Ok(sd) ==> !sd.extern_,
{
    let (items, span) = match se {
        Sexp::List(items, span) => (items, *span),
        _ => return Err(err_at("expected (defrecord ...)", se_span(se))),
    };
    if items.len() < 2 {
        return Err(err_at("defrecord requires a name", span));
    }
    let (name, name_sp) = match head_and_name(items, "defrecord", "expected symbol 'defrecord'", "expected 'defrecord'", "expected struct name") {
        Ok(v) => v,
        Err(e) => return Err(e),
    };
    let nc = string_chars(&name);
    let name = match ensure_lisp_ident(nc.as_slice(), name_sp, "struct name") {
        Ok(n) => n,
        Err(e) => return Err(e),
    };
    let fields = match parse_decl_fields(items, 2, "field") {
        Ok(f) => f,
        Err(e) => return Err(e),
    };
    let rust_name = rust_type_name(&name);
    Ok(StructDef { name, rust_name, fields, span: Span { start: name_sp.start, end: span.end }, extern_: false })
}

/// `(defenum name (variant field ...) ...)`.
pub fn parse_union(se: &Sexp) -> (r: DslResult<UnionDef>)
    ensures
        !(se is List) ==> r is Err && r->Err_0.message@ == "expected (defenum ...)"@,
        r matches Ok(ud) ==> !ud.extern_,
{
    let (items, span) = match se {
        Sexp::List(items, span) => (items, *span),
        _ => return Err(err_at("expected (defenum ...)", se_span(se))),
    };
    if items.len() < 2 {
        return Err(err_at("defenum requires a name", span));
    }
    let (name, name_sp) = match head_and_name(items, "defenum", "expected symbol 'defenum'", "expected 'defenum'", "expected union name") {
        Ok(v) => v,
        Err(e) => return Err(e),
    };
    let nc = string_chars(&name);
    let name = match ensure_lisp_ident(nc.as_slice(), name_sp, "union name") {
        Ok(n) => n,
        Err(e) => return Err(e),
    };
    let mut variants: Vec<VariantDef> = Vec::new();
    let mut i: usize = 2;
    while i < items.len()
        invariant
            2 <= i <= items@.len(),
            se is List,
        decreases items@.len() - i,
    {
        let v = &items[i];
        match v {
            Sexp::List(vitems, vspan) => {
                if vitems.len() == 0 {
                    return Err(err_at("variant must have a name", *vspan));
                }
                let (vname, vname_sp) = match atom_sym(&vitems[0]) {
                    Some(x) => x,
                    None => return Err(err_at("expected variant name", se_span(&vitems[0]))),
                };
                let vc = string_chars(&vname);
                let vname = match ensure_lisp_ident(vc.as_slice(), vname_sp, "variant name") {
                    Ok(n) => n,
                    Err(e) => return Err(e),
                };
                let fields = match parse_decl_fields(vitems, 1, "field") {
                    Ok(f) => f,
                    Err(e) => return Err(e),
                };
                let rust_name = rust_type_name(&vname);
                variants.push(VariantDef { name: vname, rust_name, fields, span: Span { start: vname_sp.start, end: vspan.end } });
            },
            _ => return Err(err_at("variant must be (Name (field Type) ...)", se_span(v))),
        }
        i = i + 1;
    }
    let rust_name = rust_type_name(&name);
    Ok(UnionDef { name, rust_name, variants, span: Span { start: name_sp.start, end: span.end }, extern_: false })
}

/// `(defn name [params] body ...)`, also `defpub` (exported) and the
/// `.specialize` forms; `main` is always exported.
pub fn parse_fn(se: &Sexp) -> (r: DslResult<FnDef>)
    ensures
        !(se is List) ==> r is Err && r->Err_0.message@ == "expected (defn ... )"@,
        r matches Ok(f) ==> !f.extern_ && f.extern_ret is None,
        r matches Ok(f) ==> (f.name@ == "main"@ ==> f.exported),
{
    let (items, span) = match se {
        Sexp::List(items, span) => (items, *span),
        _ => return Err(err_at("expected (defn ... )", se_span(se))),
    };
    if items.len() < 4 {
        return Err(err_at("defn form is (defn name [params] expr ...)", span));
    }
    let (head, _) = match atom_sym(&items[0]) {
        Some(v) => v,
        None => return Err(err_at("expected symbol 'defn'", se_span(&items[0]))),
    };
    let (mut exported, specialize) = if sym_eq(&head, "defn") {
        (false, false)
    } else if sym_eq(&head, "defn.specialize") {
        (false, true)
    } else if sym_eq(&head, "defpub") {
        (true, false)
    } else if sym_eq(&head, "defpub.specialize") {
        (true, true)
    } else {
        return Err(err_at("expected 'defn' or 'defpub'", se_span(&items[0])));
    };
    let (name, name_sp) = match atom_sym(&items[1]) {
        Some(v) => v,
        None => return Err(err_at("expected function name", se_span(&items[1]))),
    };
    let nc = string_chars(&name);
    let name = match ensure_callable_ident(nc.as_slice(), name_sp, "function name", false) {
        Ok(n) => n,
        Err(e) => return Err(e),
    };
    if sym_eq(&name, "main") {
        exported = true;
    }
    let params = match parse_params(&items[2]) {
        Ok(p) => p,
        Err(e) => return Err(e),
    };
    let body = match parse_body_expr(items, 3, span) {
        Ok(b) => b,
        Err(e) => return Err(e),
    };
    let rust_name = rust_value_name_of(&name);
    Ok(FnDef {
        name,
        rust_name,
        params,
        body,
        span: Span { start: name_sp.start, end: span.end },
        specialize,
        exported,
        extern_: false,
        extern_ret: None,
    })
}

/// `(export (defn ...))`: the function, exported.
fn parse_export(se: &Sexp) -> (r: DslResult<FnDef>)
    ensures
        r matches Ok(f) ==> f.exported,
{
    let (items, span) = match se {
        Sexp::List(items, span) => (items, *span),
        _ => return Err(err_at("expected (export (defn ...))", se_span(se))),
    };
    if items.len() != 2 {
        return Err(err_at("export form is (export (defn ...))", span));
    }
    match parse_fn(&items[1]) {
        Ok(f) => Ok(FnDef { exported: true, ..f }),
        Err(e) => Err(e),
    }
}

/// `(defin name [params] body ...)`: a function expanded at its calls.
pub fn parse_inline(se: &Sexp) -> (r: DslResult<InlineDef>)
    ensures
        !(se is List) ==> r is Err && r->Err_0.message@ == "expected (defin ...)"@,
{
    let (items, span) = match se {
        Sexp::List(items, span) => (items, *span),
        _ => return Err(err_at("expected (defin ...)", se_span(se))),
    };
    if items.len() < 4 {
        return Err(err_at("defin form is (defin name [params] expr ...)", span));
    }
    let (name, name_sp) = match head_and_name(items, "defin", "expected symbol 'defin'", "expected 'defin'", "expected inline function name") {
        Ok(v) => v,
        Err(e) => return Err(e),
    };
    let nc = string_chars(&name);
    let name = match ensure_callable_ident(nc.as_slice(), name_sp, "inline function name", false) {
        Ok(n) => n,
        Err(e) => return Err(e),
    };
    let params = match parse_params(&items[2]) {
        Ok(p) => p,
        Err(e) => return Err(e),
    };
    let body = match parse_body_expr(items, 3, span) {
        Ok(b) => b,
        Err(e) => return Err(e),
    };
    let rust_name = rust_value_name_of(&name);
    Ok(InlineDef { name, rust_name, params, body, span: Span { start: name_sp.start, end: span.end } })
}

/// `(defunion name Type ...)`: an enum with one variant per named type,
/// each holding a `value` of that type.
pub fn parse_union_alias(se: &Sexp) -> (r: DslResult<UnionDef>)
    ensures
        !(se is List) ==> r is Err && r->Err_0.message@ == "expected (defunion ...)"@,
        r matches Ok(ud) ==> !ud.extern_,
{
    let (items, span) = match se {
        Sexp::List(items, span) => (items, *span),
        _ => return Err(err_at("expected (defunion ...)", se_span(se))),
    };
    if items.len() < 3 {
        return Err(err_at("defunion requires a name and at least one type", span));
    }
    let (name, name_sp) = match head_and_name(items, "defunion", "expected symbol 'defunion'", "expected 'defunion'", "expected union name") {
        Ok(v) => v,
        Err(e) => return Err(e),
    };
    let nc = string_chars(&name);
    let name = match ensure_lisp_ident(nc.as_slice(), name_sp, "union name") {
        Ok(n) => n,
        Err(e) => return Err(e),
    };
    let mut variants: Vec<VariantDef> = Vec::new();
    let mut i: usize = 2;
    while i < items.len()
        invariant
            2 <= i <= items@.len(),
            se is List,
        decreases items@.len() - i,
    {
        let (ty_sym, ty_sp) = match atom_sym(&items[i]) {
            Some(v) => v,
            None => return Err(err_at("expected type name", se_span(&items[i]))),
        };
        let tc = string_chars(&ty_sym);
        let ty = match parse_type_from_sym_checked(tc.as_slice(), ty_sp) {
            Ok(t) => t,
            Err(e) => return Err(e),
        };
        let ty_name = match &ty {
            Ty::Named(n) => copy(n),
            _ => return Err(err_at("defunion only accepts named types", ty_sp)),
        };
        let tn = string_chars(&ty_name);
        let vname = match rsplit_slash(tn.as_slice()) {
            Some((_, tail)) => string_from_chars(tail.as_slice()),
            None => ty_name,
        };
        let rust_vname = rust_type_name(&vname);
        let field = Field {
            name: String::from_str("value"),
            rust_name: String::from_str("value"),
            ty,
            span: ty_sp,
        };
        let mut fields: Vec<Field> = Vec::new();
        fields.push(field);
        variants.push(VariantDef { name: vname, rust_name: rust_vname, fields, span: ty_sp });
        i = i + 1;
    }
    let rust_name = rust_type_name(&name);
    Ok(UnionDef { name, rust_name, variants, span: Span { start: name_sp.start, end: span.end }, extern_: false })
}

/// `(def name expr)` or `(def name:Type expr)`.
pub fn parse_def(se: &Sexp) -> (r: DslResult<Def>)
    ensures
        !(se is List) ==> r is Err && r->Err_0.message@ == "expected (def ...)"@,
{
    let (items, span) = match se {
        Sexp::List(items, span) => (items, *span),
        _ => return Err(err_at("expected (def ...)", se_span(se))),
    };
    if items.len() != 3 {
        return Err(err_at("def form is (def name expr)", span));
    }
    let (name, name_sp) = match head_and_name(items, "def", "expected symbol 'def'", "expected 'def'", "expected def name") {
        Ok(v) => v,
        Err(e) => return Err(e),
    };
    let nc = string_chars(&name);
    let (base, ann) = match split_binding_name(nc.as_slice(), name_sp) {
        Ok(v) => v,
        Err(e) => return Err(e),
    };
    let expr = match parse_expr(&items[2]) {
        Ok(e) => e,
        Err(e) => return Err(e),
    };
    let rust_name = rust_value_name_of(&base);
    Ok(Def { name: base, rust_name, ann, expr, span: Span { start: name_sp.start, end: span.end } })
}

/// `(extern ["RustName"] form)` around a `defrecord`, `defenum` or a
/// bodiless `defn`.
fn parse_extern_toplevel(se: &Sexp) -> (r: DslResult<Top>) {
    let (items, span) = match se {
        Sexp::List(items, span) => (items, *span),
        _ => return Err(err_at("expected (extern ...)", se_span(se))),
    };
    if items.len() < 2 || items.len() > 3 {
        return Err(err_at("extern form is (extern [\"RustName\"] (def...))", span));
    }
    let mut idx: usize = 1;
    let mut override_name: Option<String> = None;
    if let Some(s) = atom_str(&items[1]) {
        override_name = Some(s);
        idx = 2;
    }
    if idx >= items.len() {
        return Err(err_at("extern requires a form", span));
    }
    let form = &items[idx];
    let fitems = match form {
        Sexp::List(v, _) => v,
        _ => return Err(err_at("extern requires a def form", se_span(form))),
    };
    if fitems.len() == 0 {
        return Err(err_at("extern requires a def form", se_span(form)));
    }
    let (head, _) = match atom_sym(&fitems[0]) {
        Some(v) => v,
        None => return Err(err_at("extern form head must be a symbol", se_span(&fitems[0]))),
    };
    if sym_eq(&head, "defrecord") {
        match parse_struct(form) {
            Ok(sd) => {
                let rust_name = match override_name {
                    Some(r) => r,
                    None => sd.rust_name,
                };
                Ok(Top::Struct(StructDef { extern_: true, rust_name, ..sd }))
            },
            Err(e) => Err(e),
        }
    } else if sym_eq(&head, "defenum") {
        match parse_union(form) {
            Ok(ud) => {
                let rust_name = match override_name {
                    Some(r) => r,
                    None => ud.rust_name,
                };
                Ok(Top::Union(UnionDef { extern_: true, rust_name, ..ud }))
            },
            Err(e) => Err(e),
        }
    } else if sym_eq(&head, "defn") {
        parse_extern_fn(form, override_name)
    } else {
        Err(err_at("extern can wrap defrecord, defenum, or defn", se_span(&fitems[0])))
    }
}

/// `(defn name [params] RetType)` inside `extern`.
fn parse_extern_fn(se: &Sexp, override_name: Option<String>) -> (r: DslResult<Top>)
    ensures
        r matches Ok(Top::Func(f)) ==> f.extern_ && f.extern_ret is Some,
{
    let (items, span) = match se {
        Sexp::List(items, span) => (items, *span),
        _ => return Err(err_at("expected (defn ...)", se_span(se))),
    };
    if items.len() != 4 {
        return Err(err_at("extern defn form is (defn name [params] RetType)", span));
    }
    let (name, name_sp) = match head_and_name(items, "defn", "expected symbol 'defn'", "expected 'defn'", "expected function name") {
        Ok(v) => v,
        Err(e) => return Err(e),
    };
    let nc = string_chars(&name);
    let name = match ensure_callable_ident(nc.as_slice(), name_sp, "function name", true) {
        Ok(n) => n,
        Err(e) => return Err(e),
    };
    let params = match parse_params(&items[2]) {
        Ok(p) => p,
        Err(e) => return Err(e),
    };
    let (ret_sym, ret_sp) = match atom_sym(&items[3]) {
        Some(v) => v,
        None => return Err(err_at("extern defn return type must be a symbol", se_span(&items[3]))),
    };
    let rc = string_chars(&ret_sym);
    let ret_ty = match parse_type_from_sym_checked(rc.as_slice(), ret_sp) {
        Ok(t) => t,
        Err(e) => return Err(e),
    };
    let rust_name = match override_name {
        Some(r) => r,
        None => rust_value_name_of(&name),
    };
    Ok(Top::Func(FnDef {
        name,
        rust_name,
        params,
        body: Expr::Unit(span),
        span: Span { start: name_sp.start, end: span.end },
        specialize: false,
        exported: false,
        extern_: true,
        extern_ret: Some(ret_ty),
    }))
}

/// The message for an unknown top-level head.
pub open spec fn unknown_top_message(head: Seq<char>) -> Seq<char> {
    "unknown top-level form '"@ + head + "'"@
}

/// The heads that start a top-level form.
pub open spec fn is_top_head(h: Seq<char>) -> bool {
    ||| h == "require"@
    ||| h == "extern"@
    ||| h == "defrecord"@
    ||| h == "defenum"@
    ||| h == "defunion"@
    ||| h == "defn"@
    ||| h == "defn.specialize"@
    ||| h == "defpub"@
    ||| h == "defpub.specialize"@
    ||| h == "export"@
    ||| h == "defin"@
    ||| h == "def"@
}

/// `se` is a list headed by the symbol of a top-level form.
pub open spec fn top_form_shape(se: Sexp) -> bool {
    se matches Sexp::List(items, _) && list_head(items@) matches Some((h, _)) && is_top_head(h)
}

/// The top-level forms of a program, in order. `require` forms give one
/// entry per spec. Every form must be a list headed by the symbol of a
/// top-level form.
pub fn parse_toplevel(sexps: &[Sexp]) -> (r: DslResult<Vec<Top>>)
    ensures
        sexps@.len() == 0 ==> (r matches Ok(v) && v@.len() == 0),
        r is Ok ==> forall|i: int| 0 <= i < sexps@.len() ==> top_form_shape(#[trigger] sexps@[i]),
        sexps@.len() > 0 && !top_form_shape(sexps@[0]) ==> r is Err,
{
    let mut out: Vec<Top> = Vec::new();
    let mut i: usize = 0;
    while i < sexps.len()
        invariant
            i <= sexps@.len(),
            sexps@.len() == 0 ==> out@.len() == 0,
            forall|j: int| 0 <= j < i ==> top_form_shape(#[trigger] sexps@[j]),
        decreases sexps@.len() - i,
    {
        let se = &sexps[i];
        let (items, span) = match se {
            Sexp::List(items, span) => (items, *span),
            _ => return Err(err_at("top-level forms must be lists", se_span(se))),
        };
        if items.len() == 0 {
            return Err(err_at("empty top-level list", se_span(se)));
        }
        let (head, _) = match atom_sym(&items[0]) {
            Some(v) => v,
            None => return Err(err_at("top-level head must be a symbol", se_span(&items[0]))),
        };
        if sym_eq(&head, "require") {
            let decls = match parse_use_decl(items, 1, span) {
                Ok(d) => d,
                Err(e) => return Err(e),
            };
            let mut decls = decls;
            let mut rev: Vec<UseDecl> = Vec::new();
            while decls.len() > 0
                invariant
                    true,
                decreases decls@.len(),
            {
                match decls.pop() {
                    Some(d) => rev.push(d),
                    None => break,
                }
            }
            while rev.len() > 0
                invariant
                    true,
                decreases rev@.len(),
            {
                match rev.pop() {
                    Some(d) => out.push(Top::Use(d)),
                    None => break,
                }
            }
        } else if sym_eq(&head, "extern") {
            match parse_extern_toplevel(se) {
                Ok(t) => out.push(t),
                Err(e) => return Err(e),
            }
        } else if sym_eq(&head, "defrecord") {
            match parse_struct(se) {
                Ok(t) => out.push(Top::Struct(t)),
                Err(e) => return Err(e),
            }
        } else if sym_eq(&head, "defenum") {
            match parse_union(se) {
                Ok(t) => out.push(Top::Union(t)),
                Err(e) => return Err(e),
            }
        } else if sym_eq(&head, "defunion") {
            match parse_union_alias(se) {
                Ok(t) => out.push(Top::Union(t)),
                Err(e) => return Err(e),
            }
        } else if sym_eq(&head, "defn") || sym_eq(&head, "defn.specialize") || sym_eq(&head, "defpub")
            || sym_eq(&head, "defpub.specialize") {
            match parse_fn(se) {
                Ok(t) => out.push(Top::Func(t)),
                Err(e) => return Err(e),
            }
        } else if sym_eq(&head, "export") {
            match parse_export(se) {
                Ok(t) => out.push(Top::Func(t)),
                Err(e) => return Err(e),
            }
        } else if sym_eq(&head, "defin") {
            match parse_inline(se) {
                Ok(t) => out.push(Top::Inline(t)),
                Err(e) => return Err(e),
            }
        } else if sym_eq(&head, "def") {
            match parse_def(se) {
                Ok(t) => out.push(Top::Def(t)),
                Err(e) => return Err(e),
            }
        } else {
            let msg = concat3("unknown top-level form '", head.as_str(), "'");
            return Err(err_owned(msg, se_span(&items[0])));
        }
        i = i + 1;
    }
    Ok(out)
}

/// The specs of a `require` form, `items[from..]`, each `[path ...]`.
pub fn parse_use_decl(items: &Vec<Sexp>, from: usize, span: Span) -> (r: DslResult<Vec<UseDecl>>)
    ensures
        from >= items@.len() ==> r is Err
            && r->Err_0.message@ == "require form is (require [path :as name :refer [a b]])"@,
{
    if from >= items.len() {
        return Err(err_at("require form is (require [path :as name :refer [a b]])", span));
    }
    let mut out: Vec<UseDecl> = Vec::new();
    let mut i = from;
    while i < items.len()
        invariant
            from <= i <= items@.len(),
        decreases items@.len() - i,
    {
        let spec = &items[i];
        match spec {
            Sexp::Brack(sitems, sp) => match parse_use_spec(sitems, *sp) {
                Ok(d) => out.push(d),
                Err(e) => return Err(e),
            },
            _ => return Err(err_at("require specs must be vectors like [path :as name]", se_span(spec))),
        }
        i = i + 1;
    }
    Ok(out)
}

/// `[path :as alias :refer [a b]]` or `[path :refer :all]`.
fn parse_use_spec(items: &Vec<Sexp>, sp: Span) -> (r: DslResult<UseDecl>)
    ensures
        r matches Ok(d) ==> !(d.open && d.only is Some),
{
    if items.len() == 0 {
        return Err(err_at("require spec must include a path", sp));
    }
    let (path, path_sp) = match &items[0] {
        Sexp::Atom(TokKind::Sym(s), psp) => (copy(s), *psp),
        _ => return Err(err_at("require path must be a symbol", sp)),
    };
    let mut alias: Option<String> = None;
    let mut only: Option<Vec<String>> = None;
    let mut open = false;
    let mut idx: usize = 1;
    while idx < items.len()
        invariant
            1 <= idx <= items@.len() + 1,
        decreases items@.len() + 1 - idx,
    {
        let key = match &items[idx] {
            Sexp::Atom(TokKind::Sym(s), _) => copy(s),
            _ => return Err(err_at("require modifier must be a symbol", sp)),
        };
        idx = idx + 1;
        if sym_eq(&key, ":as") {
            let (name, nsp) = if idx < items.len() {
                match &items[idx] {
                    Sexp::Atom(TokKind::Sym(s), nsp) => (copy(s), *nsp),
                    _ => return Err(err_at("require :as must be followed by a symbol", sp)),
                }
            } else {
                return Err(err_at("require :as must be followed by a symbol", sp));
            };
            let nc = string_chars(&name);
            let name = match ensure_lisp_ident(nc.as_slice(), nsp, "require alias") {
                Ok(n) => n,
                Err(e) => return Err(e),
            };
            alias = Some(name);
            idx = idx + 1;
        } else if sym_eq(&key, ":refer") {
            if idx >= items.len() {
                return Err(err_at("require :refer must be followed by a list or :all", sp));
            }
            let next = &items[idx];
            let is_all = match next {
                Sexp::Atom(TokKind::Sym(s), _) => sym_eq(s, ":all") || sym_eq(s, "all"),
                _ => false,
            };
            if is_all {
                open = true;
                idx = idx + 1;
            } else {
                let v = match next {
                    Sexp::List(v, _) => v,
                    Sexp::Brack(v, _) => v,
                    _ => return Err(err_at("require :refer must be followed by a list or :all", se_span(next))),
                };
                let mut names: Vec<String> = Vec::new();
                let mut k: usize = 0;
                while k < v.len()
                    invariant
                        k <= v@.len(),
                    decreases v@.len() - k,
                {
                    match atom_sym(&v[k]) {
                        Some((s, ssp)) => {
                            let sc = string_chars(&s);
                            match ensure_lisp_ident(sc.as_slice(), ssp, "require :refer name") {
                                Ok(n) => names.push(n),
                                Err(e) => return Err(e),
                            }
                        },
                        None => return Err(err_at("require :refer entries must be symbols", se_span(&v[k]))),
                    }
                    k = k + 1;
                }
                only = Some(names);
                idx = idx + 1;
            }
        } else {
            return Err(err_at("unknown require modifier", sp));
        }
    }
    if open && only.is_some() {
        return Err(err_at("require cannot combine :refer :all with :refer list", sp));
    }
    Ok(UseDecl { path, alias, only, open, span: path_sp })
}

} // verus!
