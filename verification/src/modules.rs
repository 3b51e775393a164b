//! Modules: a program names the modules it needs with `require`; each
//! module's definitions get the module's name as a prefix (`math/inc`), and
//! names in a module are resolved against its own definitions, the modules
//! it requires, and the aliases it gives them.
//!
//! Loading is a conversation with the caller, who owns the file system: the
//! loader asks for one module at a time (`next_request`), the caller finds
//! and reads it (`candidate_paths`) and hands the text back (`provide`).

use vstd::prelude::*;
use crate::ast::{clone_expr, Def, Expr, Field, FnDef, InlineDef, Iterable, LetBinding, MatchArm, MatchPat, Param, RangeExpr, StructDef, Top, UnionDef, UseDecl, VariantDef};
use crate::diag::{Diag, DslResult, Span};
use crate::text::{concat2, concat3, copy, rfind_char, str_is, string_chars, sub_chars, sub_string, string_from_chars};

verus! {

/// The spelling of each string in `v`.
pub open spec fn names_view(v: Seq<String>) -> Seq<Seq<char>> {
    v.map_values(|s: String| s@)
}

/// Whether `v` holds a string spelled `s`.
pub open spec fn listed(v: Seq<String>, s: Seq<char>) -> bool {
    exists|i: int| 0 <= i < v.len() && (#[trigger] v[i])@ == s
}

/// Decides `listed`.
pub fn is_listed(v: &Vec<String>, s: &str) -> (b: bool)
    ensures
        b == listed(v@, s@),
{
    let mut i: usize = 0;
    while i < v.len()
        invariant
            i <= v@.len(),
            forall|j: int| 0 <= j < i ==> (#[trigger] v@[j])@ != s@,
        decreases v@.len() - i,
    {
        if crate::text::is_lit(&v[i], s) {
            return true;
        }
        i = i + 1;
    }
    false
}

/// The names a module defines, by kind.
#[derive(Debug)]
pub struct ModuleDefs {
    pub types: Vec<String>,
    pub variants: Vec<String>,
    pub fns: Vec<String>,
    pub inlines: Vec<String>,
    pub values: Vec<String>,
}

/// No names.
pub fn empty_defs() -> (d: ModuleDefs)
    ensures
        d.types@.len() == 0,
        d.variants@.len() == 0,
        d.fns@.len() == 0,
        d.inlines@.len() == 0,
        d.values@.len() == 0,
{
    ModuleDefs { types: Vec::new(), variants: Vec::new(), fns: Vec::new(), inlines: Vec::new(), values: Vec::new() }
}

fn copy_names(v: &Vec<String>) -> (r: Vec<String>)
    ensures
        names_view(r@) == names_view(v@),
{
    let mut r: Vec<String> = Vec::new();
    let mut i: usize = 0;
    while i < v.len()
        invariant
            i <= v@.len(),
            r@.len() == i,
            forall|j: int| 0 <= j < i ==> (#[trigger] r@[j])@ == v@[j]@,
        decreases v@.len() - i,
    {
        r.push(copy(&v[i]));
        i = i + 1;
    }
    assert(names_view(r@) =~= names_view(v@));
    r
}

/// A copy of a set of definitions.
pub fn copy_defs(d: &ModuleDefs) -> (r: ModuleDefs)
    ensures
        names_view(r.types@) == names_view(d.types@),
        names_view(r.variants@) == names_view(d.variants@),
        names_view(r.fns@) == names_view(d.fns@),
        names_view(r.inlines@) == names_view(d.inlines@),
        names_view(r.values@) == names_view(d.values@),
{
    ModuleDefs {
        types: copy_names(&d.types),
        variants: copy_names(&d.variants),
        fns: copy_names(&d.fns),
        inlines: copy_names(&d.inlines),
        values: copy_names(&d.values),
    }
}

/// Two lists with the same spelling list the same names.
pub proof fn lemma_listed_same(a: Seq<String>, b: Seq<String>, s: Seq<char>)
    requires
        names_view(a) == names_view(b),
    ensures
        listed(a, s) == listed(b, s),
{
    assert(a.len() == names_view(a).len());
    assert(b.len() == names_view(b).len());
    if listed(a, s) {
        let i = choose|i: int| 0 <= i < a.len() && (#[trigger] a[i])@ == s;
        assert(names_view(a)[i] == a[i]@);
        assert(names_view(b)[i] == b[i]@);
    }
    if listed(b, s) {
        let i = choose|i: int| 0 <= i < b.len() && (#[trigger] b[i])@ == s;
        assert(names_view(a)[i] == a[i]@);
        assert(names_view(b)[i] == b[i]@);
    }
}

/// `name` qualified by `module`: `module/name`.
pub open spec fn qualified(module: Seq<char>, name: Seq<char>) -> Seq<char> {
    module + seq!['/'] + name
}

/// Qualifies `name` by `module`.
pub fn qualify(module: &str, name: &str) -> (r: String)
    ensures
        r@ == qualified(module@, name@),
{
    let r = concat3(module, "/", name);
    proof {
        reveal_strlit("/");
        assert("/"@ =~= seq!['/']);
    }
    r
}

/// The last position of `c` in `s`.
pub open spec fn last_index_of(s: Seq<char>, c: char) -> Option<int>
    decreases s.len(),
{
    if s.len() == 0 {
        None
    } else if s.last() == c {
        Some(s.len() - 1)
    } else {
        last_index_of(s.drop_last(), c)
    }
}

/// `last_index_of` is the greatest position holding `c`.
pub proof fn lemma_last_index_of(s: Seq<char>, c: char)
    ensures
        last_index_of(s, c) matches Some(i) ==> 0 <= i < s.len() && s[i] == c && forall|j: int| i < j < s.len() ==> s[j] != c,
        last_index_of(s, c) is None ==> forall|j: int| 0 <= j < s.len() ==> s[j] != c,
    decreases s.len(),
{
    if s.len() > 0 {
        assert(s.last() == s[s.len() - 1]);
        if s.last() != c {
            let t = s.drop_last();
            lemma_last_index_of(t, c);
            assert(last_index_of(s, c) == last_index_of(t, c));
            match last_index_of(t, c) {
                Some(i) => {
                    assert(t[i] == s[i]);
                    assert forall|j: int| i < j < s.len() implies s[j] != c by {
                        if j < s.len() - 1 {
                            assert(t[j] == s[j]);
                        }
                    }
                },
                None => {
                    assert forall|j: int| 0 <= j < s.len() implies s[j] != c by {
                        if j < s.len() - 1 {
                            assert(t[j] == s[j]);
                        }
                    }
                },
            }
        }
    }
}

/// A position holding `c` with none after it is the last one.
proof fn lemma_last_index_is(s: Seq<char>, c: char, i: int)
    requires
        0 <= i < s.len(),
        s[i] == c,
        forall|j: int| i < j < s.len() ==> s[j] != c,
    ensures
        last_index_of(s, c) == Some(i),
    decreases s.len(),
{
    if s.last() != c {
        lemma_last_index_is(s.drop_last(), c, i);
    }
}

/// A sequence without `c` has no last `c`.
proof fn lemma_last_index_none(s: Seq<char>, c: char)
    requires
        !s.contains(c),
    ensures
        last_index_of(s, c) is None,
    decreases s.len(),
{
    if s.len() > 0 {
        assert(s[s.len() - 1] == s.last());
        assert(s.drop_last().contains(c) ==> s.contains(c)) by {
            if s.drop_last().contains(c) {
                let k = choose|k: int| 0 <= k < s.drop_last().len() && s.drop_last()[k] == c;
                assert(s[k] == c);
            }
        }
        lemma_last_index_none(s.drop_last(), c);
    }
}

/// The last position of `c` in `s`, computed.
pub fn last_index(s: &[char], c: char) -> (r: Option<usize>)
    ensures
        r matches Some(i) ==> last_index_of(s@, c) == Some(i as int) && i < s@.len(),
        r is None ==> last_index_of(s@, c) is None,
{
    let r = rfind_char(s, c);
    proof {
        match r {
            Some(i) => lemma_last_index_is(s@, c, i as int),
            None => lemma_last_index_none(s@, c),
        }
    }
    r
}

/// A qualified name split at its last '/': the module prefix and the item.
pub open spec fn split_qualified_spec(name: Seq<char>) -> Option<(Seq<char>, Seq<char>)> {
    match last_index_of(name, '/') {
        None => None,
        Some(k) => Some((name.subrange(0, k), name.subrange(k + 1, name.len() as int))),
    }
}

/// Splits `name` at its last '/'.
pub fn split_qualified(name: &str) -> (r: Option<(String, String)>)
    ensures
        match r {
            None => split_qualified_spec(name@) is None,
            Some((p, i)) => split_qualified_spec(name@) == Some((p@, i@)),
        },
{
    let cs = crate::text::chars_of(name);
    let sl = cs.as_slice();
    match last_index(sl, '/') {
        None => None,
        Some(k) => {
            proof {
                lemma_last_index_of(sl@, '/');
            }
            let n = sl.len();
            assert(k < n);
            let p = sub_string(sl, 0, k);
            let i = sub_string(sl, k + 1, n);
            Some((p, i))
        },
    }
}

/// A module path spelled with '.' between its parts (`acme.io`).
pub open spec fn dotted(prefix: Seq<char>) -> Seq<char> {
    prefix.map_values(|c: char| if c == '/' { '.' } else { c })
}

/// `prefix` with each '/' written as '.'.
pub fn normalize_module_prefix(prefix: &str) -> (r: String)
    ensures
        r@ == dotted(prefix@),
{
    let cs = crate::text::chars_of(prefix);
    let mut out: Vec<char> = Vec::new();
    let mut i: usize = 0;
    while i < cs.len()
        invariant
            i <= cs@.len(),
            cs@ == prefix@,
            out@ == dotted(cs@.subrange(0, i as int)),
        decreases cs@.len() - i,
    {
        let c = cs[i];
        out.push(if c == '/' { '.' } else { c });
        i = i + 1;
        assert(out@ =~= dotted(cs@.subrange(0, i as int)));
    }
    assert(cs@.subrange(0, cs@.len() as int) =~= cs@);
    string_from_chars(out.as_slice())
}

/// The message for an empty `require` path.
pub open spec fn empty_path_message() -> Seq<char> {
    "empty module path"@
}

/// The message for a `require` path that is not a module path.
pub open spec fn bad_path_message() -> Seq<char> {
    "module path must be lowercase and use lisp-style segments separated by '.'"@
}

/// The module a `require` path names: the path itself when it is a
/// non-empty module path.
pub open spec fn module_of_path(path: Seq<char>) -> Option<Seq<char>> {
    if path.len() > 0 && crate::ast::is_module_path_spec(path) { Some(path) } else { None }
}

/// The module a `require` path names, or why it names none.
pub fn module_name_from_import(path: &str) -> (r: DslResult<String>)
    ensures
        r matches Ok(m) ==> module_of_path(path@) == Some(m@),
        r is Err ==> module_of_path(path@) is None,
        path@.len() == 0 ==> (r matches Err(d) && d.message@ == empty_path_message() && d.span is None),
        path@.len() > 0 && !crate::ast::is_module_path_spec(path@) ==> (r matches Err(d)
            && d.message@ == bad_path_message() && d.span is None),
{
    let cs = crate::text::chars_of(path);
    if cs.len() == 0 {
        return Err(Diag::new("empty module path"));
    }
    if !crate::ast::is_module_path(cs.as_slice()) {
        return Err(Diag::new("module path must be lowercase and use lisp-style segments separated by '.'"));
    }
    Ok(string_from_chars(cs.as_slice()))
}

/// The last component of a path written with '/' separators, as
/// `Path::file_name` reads it: trailing '/' and "." components are skipped,
/// and a path that ends in ".." or has no component names no file.
pub open spec fn file_name_of(s: Seq<char>) -> Option<Seq<char>>
    decreases s.len(),
{
    if s.len() == 0 {
        None
    } else if s.last() == '/' {
        file_name_of(s.drop_last())
    } else {
        proof { lemma_last_index_of(s, '/'); }
        let comp = match last_index_of(s, '/') {
            None => s,
            Some(k) => s.subrange(k + 1, s.len() as int),
        };
        if comp == seq!['.'] {
            match last_index_of(s, '/') {
                None => None,
                Some(k) => file_name_of(s.subrange(0, k)),
            }
        } else if comp == seq!['.', '.'] {
            None
        } else {
            Some(comp)
        }
    }
}

/// A file name without its extension, as `Path::file_stem` reads it: the
/// part before the last '.', unless that '.' starts the name.
pub open spec fn stem_of(name: Seq<char>) -> Seq<char> {
    match last_index_of(name, '.') {
        None => name,
        Some(k) => if k == 0 { name } else { name.subrange(0, k) },
    }
}

/// The name of the module a root file defines: the file's stem.
pub open spec fn module_of_file(path: Seq<char>) -> Option<Seq<char>> {
    match file_name_of(path) {
        None => None,
        Some(n) => Some(stem_of(n)),
    }
}

fn file_name(s: &[char]) -> (r: Option<Vec<char>>)
    ensures
        match r {
            None => file_name_of(s@) is None,
            Some(v) => file_name_of(s@) == Some(v@),
        },
    decreases s@.len(),
{
    if s.len() == 0 {
        return None;
    }
    if s[s.len() - 1] == '/' {
        let t = sub_chars(s, 0, s.len() - 1);
        proof { assert(t@ =~= s@.drop_last()); }
        return file_name(t.as_slice());
    }
    proof { lemma_last_index_of(s@, '/'); }
    let k = last_index(s, '/');
    let comp = match k {
        None => sub_chars(s, 0, s.len()),
        Some(k) => sub_chars(s, k + 1, s.len()),
    };
    proof {
        assert(s@.subrange(0, s@.len() as int) =~= s@);
        reveal_strlit(".");
        reveal_strlit("..");
    }
    if crate::text::chars_is(comp.as_slice(), ".") {
        proof { assert(comp@ =~= seq!['.']); }
        match k {
            None => None,
            Some(k) => {
                let head = sub_chars(s, 0, k);
                file_name(head.as_slice())
            },
        }
    } else if crate::text::chars_is(comp.as_slice(), "..") {
        proof { assert(comp@ =~= seq!['.', '.']); }
        None
    } else {
        proof {
            assert(comp@ != seq!['.']) by { assert("."@ =~= seq!['.']); }
            assert(comp@ != seq!['.', '.']) by { assert(".."@ =~= seq!['.', '.']); }
        }
        Some(comp)
    }
}

/// The name of the module that the root file at `path` defines.
pub fn module_name_from_path(path: &str) -> (r: DslResult<String>)
    ensures
        r matches Ok(m) ==> module_of_file(path@) == Some(m@),
        r matches Err(d) ==> module_of_file(path@) is None && d.message@ == "invalid module path"@ && d.span is None,
{
    let cs = crate::text::chars_of(path);
    match file_name(cs.as_slice()) {
        None => Err(Diag::new("invalid module path")),
        Some(name) => match last_index(name.as_slice(), '.') {
            None => Ok(string_from_chars(name.as_slice())),
            Some(k) => {
                if k == 0 {
                    Ok(string_from_chars(name.as_slice()))
                } else {
                    Ok(sub_string(name.as_slice(), 0, k))
                }
            },
        },
    }
}

/// The modules that come with the language, each with the functions it
/// defines.
pub open spec fn builtin_modules() -> Seq<(Seq<char>, Seq<Seq<char>>)> {
    seq![
        ("darcy.io"@, seq!["dbg"@]),
        ("darcy.math"@, seq!["abs"@, "min"@, "max"@, "clamp"@]),
        ("darcy.vec"@, seq!["len"@, "is-empty"@, "get"@, "set"@]),
        ("darcy.string"@, seq!["len"@, "is-empty"@, "trim"@, "split"@, "join"@]),
        ("darcy.fmt"@, seq!["dbg"@, "format"@, "pretty"@, "print"@, "println"@]),
        ("darcy.option"@, seq!["some"@, "none"@, "is-some"@, "is-none"@, "unwrap"@, "unwrap-or"@]),
        ("darcy.result"@, seq!["ok"@, "err"@, "is-ok"@, "is-err"@, "unwrap"@, "unwrap-or"@]),
        ("darcy.hash-map"@, seq!["new"@, "len"@, "is-empty"@, "get"@, "contains"@, "insert"@, "remove"@]),
        ("darcy.btree-map"@, seq!["new"@, "len"@, "is-empty"@, "get"@, "contains"@, "insert"@, "remove"@])
    ]
}

/// Whether `name` is one of the modules that come with the language.
pub open spec fn is_builtin_module_spec(name: Seq<char>) -> bool {
    exists|i: int| 0 <= i < builtin_modules().len() && (#[trigger] builtin_modules()[i]).0 == name
}

fn strs_to_strings(v: &Vec<&str>) -> (r: Vec<String>)
    ensures
        r@.len() == v@.len(),
        forall|i: int| 0 <= i < v@.len() ==> (#[trigger] r@[i])@ == v@[i]@,
{
    let mut r: Vec<String> = Vec::new();
    let mut i: usize = 0;
    while i < v.len()
        invariant
            i <= v@.len(),
            r@.len() == i,
            forall|j: int| 0 <= j < i ==> (#[trigger] r@[j])@ == v@[j]@,
        decreases v@.len() - i,
    {
        r.push(String::from_str(v[i]));
        i = i + 1;
    }
    r
}

fn builtin_entry(name: &str, fns: Vec<&str>) -> (r: (String, ModuleDefs))
    ensures
        r.0@ == name@,
        names_view(r.1.fns@) =~= fns@.map_values(|s: &str| s@),
        r.1.types@.len() == 0,
        r.1.variants@.len() == 0,
        r.1.inlines@.len() == 0,
        r.1.values@.len() == 0,
{
    let mut d = empty_defs();
    d.fns = strs_to_strings(&fns);
    (String::from_str(name), d)
}

/// The definitions of the modules that come with the language, in the
/// order of `builtin_modules`.
pub fn builtin_module_defs() -> (r: Vec<(String, ModuleDefs)>)
    ensures
        r@.len() == builtin_modules().len(),
        forall|i: int| 0 <= i < r@.len() ==> {
            &&& (#[trigger] r@[i]).0@ == builtin_modules()[i].0
            &&& names_view(r@[i].1.fns@) == builtin_modules()[i].1
            &&& r@[i].1.types@.len() == 0
            &&& r@[i].1.variants@.len() == 0
            &&& r@[i].1.inlines@.len() == 0
            &&& r@[i].1.values@.len() == 0
        },
{
    let mut r: Vec<(String, ModuleDefs)> = Vec::new();
    r.push(builtin_entry("darcy.io", vec!["dbg"]));
    r.push(builtin_entry("darcy.math", vec!["abs", "min", "max", "clamp"]));
    r.push(builtin_entry("darcy.vec", vec!["len", "is-empty", "get", "set"]));
    r.push(builtin_entry("darcy.string", vec!["len", "is-empty", "trim", "split", "join"]));
    r.push(builtin_entry("darcy.fmt", vec!["dbg", "format", "pretty", "print", "println"]));
    r.push(builtin_entry("darcy.option", vec!["some", "none", "is-some", "is-none", "unwrap", "unwrap-or"]));
    r.push(builtin_entry("darcy.result", vec!["ok", "err", "is-ok", "is-err", "unwrap", "unwrap-or"]));
    r.push(builtin_entry("darcy.hash-map", vec!["new", "len", "is-empty", "get", "contains", "insert", "remove"]));
    r.push(builtin_entry("darcy.btree-map", vec!["new", "len", "is-empty", "get", "contains", "insert", "remove"]));
    r
}

/// Whether `name` is one of the modules that come with the language.
pub fn is_builtin_module(name: &str) -> (b: bool)
    ensures
        b == is_builtin_module_spec(name@),
{
    let table = builtin_module_defs();
    let mut i: usize = 0;
    while i < table.len()
        invariant
            i <= table@.len(),
            table@.len() == builtin_modules().len(),
            forall|j: int| 0 <= j < table@.len() ==> (#[trigger] table@[j]).0@ == builtin_modules()[j].0,
            forall|j: int| 0 <= j < i ==> (#[trigger] builtin_modules()[j]).0 != name@,
        decreases table@.len() - i,
    {
        if crate::text::str_is(table[i].0.as_str(), name) {
            assert(builtin_modules()[i as int].0 == name@);
            return true;
        }
        i = i + 1;
    }
    false
}

/// The type names that top-level forms define, in order.
pub open spec fn type_names(tops: Seq<Top>) -> Seq<Seq<char>>
    decreases tops.len(),
{
    if tops.len() == 0 {
        seq![]
    } else {
        type_names(tops.drop_last()) + match tops.last() {
            Top::Struct(sd) => seq![sd.name@],
            Top::Union(ud) => seq![ud.name@],
            _ => seq![],
        }
    }
}

/// The names of the variants of the enums that top-level forms define.
pub open spec fn variant_names(tops: Seq<Top>) -> Seq<Seq<char>>
    decreases tops.len(),
{
    if tops.len() == 0 {
        seq![]
    } else {
        variant_names(tops.drop_last()) + match tops.last() {
            Top::Union(ud) => ud.variants@.map_values(|v: crate::ast::VariantDef| v.name@),
            _ => seq![],
        }
    }
}

/// The function names that top-level forms define.
pub open spec fn fn_names(tops: Seq<Top>) -> Seq<Seq<char>>
    decreases tops.len(),
{
    if tops.len() == 0 {
        seq![]
    } else {
        fn_names(tops.drop_last()) + match tops.last() {
            Top::Func(fd) => seq![fd.name@],
            _ => seq![],
        }
    }
}

/// The inline function names that top-level forms define.
pub open spec fn inline_names(tops: Seq<Top>) -> Seq<Seq<char>>
    decreases tops.len(),
{
    if tops.len() == 0 {
        seq![]
    } else {
        inline_names(tops.drop_last()) + match tops.last() {
            Top::Inline(inl) => seq![inl.name@],
            _ => seq![],
        }
    }
}

/// The value names (`def`) that top-level forms define.
pub open spec fn value_names(tops: Seq<Top>) -> Seq<Seq<char>>
    decreases tops.len(),
{
    if tops.len() == 0 {
        seq![]
    } else {
        value_names(tops.drop_last()) + match tops.last() {
            Top::Def(d) => seq![d.name@],
            _ => seq![],
        }
    }
}

/// The names that `tops` define, by kind.
pub fn collect_module_defs(tops: &Vec<Top>) -> (d: ModuleDefs)
    ensures
        names_view(d.types@) == type_names(tops@),
        names_view(d.variants@) == variant_names(tops@),
        names_view(d.fns@) == fn_names(tops@),
        names_view(d.inlines@) == inline_names(tops@),
        names_view(d.values@) == value_names(tops@),
{
    let mut d = empty_defs();
    let mut i: usize = 0;
    proof {
        assert(tops@.subrange(0, 0) =~= Seq::<Top>::empty());
        assert(names_view(d.types@) =~= seq![]);
        assert(names_view(d.variants@) =~= seq![]);
        assert(names_view(d.fns@) =~= seq![]);
        assert(names_view(d.inlines@) =~= seq![]);
        assert(names_view(d.values@) =~= seq![]);
    }
    while i < tops.len()
        invariant
            i <= tops@.len(),
            names_view(d.types@) == type_names(tops@.subrange(0, i as int)),
            names_view(d.variants@) == variant_names(tops@.subrange(0, i as int)),
            names_view(d.fns@) == fn_names(tops@.subrange(0, i as int)),
            names_view(d.inlines@) == inline_names(tops@.subrange(0, i as int)),
            names_view(d.values@) == value_names(tops@.subrange(0, i as int)),
        decreases tops@.len() - i,
    {
        let ghost pre = tops@.subrange(0, i as int);
        let ghost cur = tops@.subrange(0, i as int + 1);
        proof {
            assert(cur.drop_last() =~= pre);
            assert(cur.last() == tops@[i as int]);
        }
        let ghost d0 = d;
        match &tops[i] {
            Top::Struct(sd) => {
                d.types.push(copy(&sd.name));
                proof {
                    assert(names_view(d.types@) =~= names_view(d0.types@) + seq![sd.name@]);
                    assert(names_view(d.variants@) =~= names_view(d0.variants@) + seq![]);
                    assert(names_view(d.fns@) =~= names_view(d0.fns@) + seq![]);
                    assert(names_view(d.inlines@) =~= names_view(d0.inlines@) + seq![]);
                    assert(names_view(d.values@) =~= names_view(d0.values@) + seq![]);
                }
            },
            Top::Union(ud) => {
                d.types.push(copy(&ud.name));
                let mut j: usize = 0;
                while j < ud.variants.len()
                    invariant
                        j <= ud.variants@.len(),
                        names_view(d.variants@) == names_view(d0.variants@)
                            + ud.variants@.subrange(0, j as int).map_values(|v: crate::ast::VariantDef| v.name@),
                        names_view(d.types@) == names_view(d0.types@) + seq![ud.name@],
                        d.fns == d0.fns,
                        d.inlines == d0.inlines,
                        d.values == d0.values,
                    decreases ud.variants@.len() - j,
                {
                    push_name(&mut d.variants, &ud.variants[j].name);
                    j = j + 1;
                    assert(names_view(d.variants@) =~= names_view(d0.variants@)
                        + ud.variants@.subrange(0, j as int).map_values(|v: crate::ast::VariantDef| v.name@));
                }
                proof {
                    assert(ud.variants@.subrange(0, j as int) =~= ud.variants@);
                    assert(names_view(d.fns@) =~= names_view(d0.fns@) + seq![]);
                    assert(names_view(d.inlines@) =~= names_view(d0.inlines@) + seq![]);
                    assert(names_view(d.values@) =~= names_view(d0.values@) + seq![]);
                }
            },
            Top::Func(fd) => {
                d.fns.push(copy(&fd.name));
                proof {
                    assert(names_view(d.types@) =~= names_view(d0.types@) + seq![]);
                    assert(names_view(d.variants@) =~= names_view(d0.variants@) + seq![]);
                    assert(names_view(d.fns@) =~= names_view(d0.fns@) + seq![fd.name@]);
                    assert(names_view(d.inlines@) =~= names_view(d0.inlines@) + seq![]);
                    assert(names_view(d.values@) =~= names_view(d0.values@) + seq![]);
                }
            },
            Top::Inline(inl) => {
                d.inlines.push(copy(&inl.name));
                proof {
                    assert(names_view(d.types@) =~= names_view(d0.types@) + seq![]);
                    assert(names_view(d.variants@) =~= names_view(d0.variants@) + seq![]);
                    assert(names_view(d.fns@) =~= names_view(d0.fns@) + seq![]);
                    assert(names_view(d.inlines@) =~= names_view(d0.inlines@) + seq![inl.name@]);
                    assert(names_view(d.values@) =~= names_view(d0.values@) + seq![]);
                }
            },
            Top::Def(df) => {
                d.values.push(copy(&df.name));
                proof {
                    assert(names_view(d.types@) =~= names_view(d0.types@) + seq![]);
                    assert(names_view(d.variants@) =~= names_view(d0.variants@) + seq![]);
                    assert(names_view(d.fns@) =~= names_view(d0.fns@) + seq![]);
                    assert(names_view(d.inlines@) =~= names_view(d0.inlines@) + seq![]);
                    assert(names_view(d.values@) =~= names_view(d0.values@) + seq![df.name@]);
                }
            },
            Top::Use(_) => {
                proof {
                    assert(names_view(d.types@) =~= names_view(d0.types@) + seq![]);
                    assert(names_view(d.variants@) =~= names_view(d0.variants@) + seq![]);
                    assert(names_view(d.fns@) =~= names_view(d0.fns@) + seq![]);
                    assert(names_view(d.inlines@) =~= names_view(d0.inlines@) + seq![]);
                    assert(names_view(d.values@) =~= names_view(d0.values@) + seq![]);
                }
            },
        }
        i = i + 1;
    }
    proof { assert(tops@.subrange(0, tops@.len() as int) =~= tops@); }
    d
}

fn push_name(v: &mut Vec<String>, s: &String)
    ensures
        names_view(final(v)@) == names_view(old(v)@).push(s@),
{
    v.push(copy(s));
    assert(names_view(v@) =~= names_view(old(v)@).push(s@));
}

fn append_names(dst: &mut Vec<String>, src: &Vec<String>)
    ensures
        names_view(final(dst)@) == names_view(old(dst)@) + names_view(src@),
{
    let ghost d0 = names_view(dst@);
    let mut i: usize = 0;
    while i < src.len()
        invariant
            i <= src@.len(),
            names_view(dst@) == d0 + names_view(src@).subrange(0, i as int),
        decreases src@.len() - i,
    {
        push_name(dst, &src[i]);
        i = i + 1;
        assert(names_view(dst@) =~= d0 + names_view(src@).subrange(0, i as int));
    }
    assert(names_view(src@).subrange(0, src@.len() as int) =~= names_view(src@));
}

/// `dst` with the names of `src` added, kind by kind.
pub fn merge_defs(dst: &mut ModuleDefs, src: &ModuleDefs)
    ensures
        names_view(final(dst).types@) == names_view(old(dst).types@) + names_view(src.types@),
        names_view(final(dst).variants@) == names_view(old(dst).variants@) + names_view(src.variants@),
        names_view(final(dst).fns@) == names_view(old(dst).fns@) + names_view(src.fns@),
        names_view(final(dst).inlines@) == names_view(old(dst).inlines@) + names_view(src.inlines@),
        names_view(final(dst).values@) == names_view(old(dst).values@) + names_view(src.values@),
{
    append_names(&mut dst.types, &src.types);
    append_names(&mut dst.variants, &src.variants);
    append_names(&mut dst.fns, &src.fns);
    append_names(&mut dst.inlines, &src.inlines);
    append_names(&mut dst.values, &src.values);
}

/// No two entries share a name.
pub open spec fn entry_names_unique<V>(all: Seq<(String, V)>) -> bool {
    forall|i: int, j: int| 0 <= i < j < all.len() ==> (#[trigger] all[i]).0@ != (#[trigger] all[j]).0@
}

/// The entry named `name`, if there is one.
pub open spec fn entry_index<V>(all: Seq<(String, V)>, name: Seq<char>) -> Option<int> {
    if exists|i: int| 0 <= i < all.len() && (#[trigger] all[i]).0@ == name {
        Some(choose|i: int| 0 <= i < all.len() && (#[trigger] all[i]).0@ == name)
    } else {
        None
    }
}

/// Finds the entry named `name`.
pub fn find_entry<V>(all: &Vec<(String, V)>, name: &str) -> (r: Option<usize>)
    requires
        entry_names_unique(all@),
    ensures
        match r {
            None => entry_index(all@, name@) is None,
            Some(i) => entry_index(all@, name@) == Some(i as int) && i < all@.len(),
        },
{
    let mut i: usize = 0;
    while i < all.len()
        invariant
            i <= all@.len(),
            entry_names_unique(all@),
            forall|j: int| 0 <= j < i ==> (#[trigger] all@[j]).0@ != name@,
        decreases all@.len() - i,
    {
        if crate::text::str_is(all[i].0.as_str(), name) {
            proof {
                let k = choose|k: int| 0 <= k < all@.len() && (#[trigger] all@[k]).0@ == name@;
                if k != i as int {
                    let a = if k < i as int { k } else { i as int };
                    let b = if k < i as int { i as int } else { k };
                    assert(0 <= a < b < all@.len());
                    assert(all@[a].0@ != all@[b].0@);
                }
            }
            return Some(i);
        }
        i = i + 1;
    }
    None
}

/// The definitions recorded for module `m`.
pub open spec fn defs_of(all: Seq<(String, ModuleDefs)>, m: Seq<char>) -> Option<ModuleDefs> {
    match entry_index(all, m) {
        Some(i) => Some(all[i].1),
        None => None,
    }
}

/// Whether a `require` brings `name` in: by `:refer :all`, when the module
/// defines it (a type, variant, function or inline function; for a value
/// search, a value), or by naming it in `:refer [..]` (for a value search,
/// only when the module defines it as a value).
pub open spec fn use_brings(u: UseDecl, d: ModuleDefs, name: Seq<char>, values: bool) -> bool {
    if values {
        (u.open && listed(d.values@, name)) || (u.only matches Some(o) && listed(o@, name) && listed(d.values@, name))
    } else {
        (u.open && (listed(d.types@, name) || listed(d.variants@, name) || listed(d.fns@, name)
            || listed(d.inlines@, name))) || (u.only matches Some(o) && listed(o@, name))
    }
}

/// `name` as the `require` declarations `uses` resolve it, searched in
/// order; the search gives up at the first declaration whose path is not a
/// module path or whose module has no recorded definitions.
pub open spec fn from_uses(uses: Seq<UseDecl>, all: Seq<(String, ModuleDefs)>, name: Seq<char>, values: bool) -> Option<Seq<char>>
    decreases uses.len(),
{
    if uses.len() == 0 {
        None
    } else {
        match module_of_path(uses[0].path@) {
            None => None,
            Some(m) => match defs_of(all, m) {
                None => None,
                Some(d) => if use_brings(uses[0], d, name, values) {
                    Some(qualified(m, name))
                } else {
                    from_uses(uses.drop_first(), all, name, values)
                },
            },
        }
    }
}

fn listed_opt(o: &Option<Vec<String>>, name: &str) -> (b: bool)
    ensures
        b == (o matches Some(v) && listed(v@, name@)),
{
    match o {
        Some(v) => is_listed(v, name),
        None => false,
    }
}

/// Resolves `name` through the `require` declarations `uses`.
pub fn resolve_from_uses(uses: &Vec<UseDecl>, all: &Vec<(String, ModuleDefs)>, name: &str, values: bool) -> (r: Option<String>)
    requires
        entry_names_unique(all@),
    ensures
        match r {
            None => from_uses(uses@, all@, name@, values) is None,
            Some(q) => from_uses(uses@, all@, name@, values) == Some(q@),
        },
{
    let mut i: usize = 0;
    proof { assert(uses@.subrange(0, uses@.len() as int) =~= uses@); }
    while i < uses.len()
        invariant
            i <= uses@.len(),
            entry_names_unique(all@),
            from_uses(uses@, all@, name@, values) == from_uses(uses@.subrange(i as int, uses@.len() as int), all@, name@, values),
        decreases uses@.len() - i,
    {
        let ghost rest = uses@.subrange(i as int, uses@.len() as int);
        proof {
            assert(rest[0] == uses@[i as int]);
            assert(rest.drop_first() =~= uses@.subrange(i as int + 1, uses@.len() as int));
        }
        let u = &uses[i];
        let m = match module_name_from_import(u.path.as_str()) {
            Ok(m) => m,
            Err(_) => return None,
        };
        let k = match find_entry(all, m.as_str()) {
            Some(k) => k,
            None => return None,
        };
        let d = &all[k].1;
        let brings = if values {
            (u.open && is_listed(&d.values, name)) || (listed_opt(&u.only, name) && is_listed(&d.values, name))
        } else {
            (u.open && (is_listed(&d.types, name) || is_listed(&d.variants, name) || is_listed(&d.fns, name)
                || is_listed(&d.inlines, name))) || listed_opt(&u.only, name)
        };
        if brings {
            return Some(qualify(m.as_str(), name));
        }
        i = i + 1;
    }
    proof { assert(uses@.subrange(i as int, uses@.len() as int).len() == 0); }
    None
}

/// The first `require` declaration that gives a module the alias `prefix`.
pub open spec fn first_alias(uses: Seq<UseDecl>, prefix: Seq<char>) -> Option<UseDecl>
    decreases uses.len(),
{
    if uses.len() == 0 {
        None
    } else if uses[0].alias matches Some(a) && a@ == prefix {
        Some(uses[0])
    } else {
        first_alias(uses.drop_first(), prefix)
    }
}

/// The module that a prefix such as `m` in `m/inc` names: the module
/// aliased as `prefix`, or else the module spelled by `prefix` with '/' read
/// as '.', if it has recorded definitions. `Err` holds the message.
pub open spec fn prefix_result(uses: Seq<UseDecl>, all: Seq<(String, ModuleDefs)>, prefix: Seq<char>) -> Result<Seq<char>, Seq<char>> {
    match first_alias(uses, prefix) {
        Some(u) => if u.path@.len() == 0 {
            Err(empty_path_message())
        } else if !crate::ast::is_module_path_spec(u.path@) {
            Err(bad_path_message())
        } else {
            Ok(u.path@)
        },
        None => if entry_index(all, dotted(prefix)) is Some {
            Ok(dotted(prefix))
        } else {
            Err("unknown module '"@ + prefix + "'"@)
        },
    }
}

/// The `Err` message of a result, or its `Ok` spelling.
pub open spec fn result_view(r: DslResult<String>) -> Result<Seq<char>, Seq<char>> {
    match r {
        Ok(s) => Ok(s@),
        Err(d) => Err(d.message@),
    }
}

/// Resolves a module prefix.
pub fn resolve_module_prefix(uses: &Vec<UseDecl>, all: &Vec<(String, ModuleDefs)>, prefix: &str, span: Span) -> (r: DslResult<String>)
    requires
        entry_names_unique(all@),
    ensures
        result_view(r) == prefix_result(uses@, all@, prefix@),
        first_alias(uses@, prefix@) is None ==> (r matches Err(d) ==> d.span == Some(span)),
{
    let mut i: usize = 0;
    proof { assert(uses@.subrange(0, uses@.len() as int) =~= uses@); }
    while i < uses.len()
        invariant
            i <= uses@.len(),
            first_alias(uses@, prefix@) == first_alias(uses@.subrange(i as int, uses@.len() as int), prefix@),
        decreases uses@.len() - i,
    {
        let ghost rest = uses@.subrange(i as int, uses@.len() as int);
        proof {
            assert(rest[0] == uses@[i as int]);
            assert(rest.drop_first() =~= uses@.subrange(i as int + 1, uses@.len() as int));
        }
        if let Some(a) = &uses[i].alias {
            if crate::text::str_is(a.as_str(), prefix) {
                return module_name_from_import(uses[i].path.as_str());
            }
        }
        i = i + 1;
    }
    proof { assert(uses@.subrange(i as int, uses@.len() as int).len() == 0); }
    let normalized = normalize_module_prefix(prefix);
    if find_entry(all, normalized.as_str()).is_some() {
        return Ok(normalized);
    }
    let msg = concat3("unknown module '", prefix, "'");
    Err(Diag::from_message(msg).with_span(span))
}

/// Names that pass through resolution as they are.
pub open spec fn passes_through(s: Seq<char>) -> bool {
    s == "+"@ || s == "-"@ || s == "*"@ || s == "/"@ || s == "dbg"@
}

/// Type names that need no module.
pub open spec fn module_primitive(s: Seq<char>) -> bool {
    s == "i32"@ || s == "i64"@ || s == "u32"@ || s == "u64"@ || s == "f32"@ || s == "f64"@
        || s == "bool"@ || s == "usize"@ || s == "isize"@ || s == "()"@ || s == "string"@
}

fn module_primitive_name(s: &str) -> (b: bool)
    ensures
        b == module_primitive(s@),
{
    str_is(s, "i32") || str_is(s, "i64") || str_is(s, "u32") || str_is(s, "u64") || str_is(s, "f32")
        || str_is(s, "f64") || str_is(s, "bool") || str_is(s, "usize") || str_is(s, "isize")
        || str_is(s, "()") || str_is(s, "string")
}

/// Where resolution happens: the module, what it requires, its own
/// definitions, and those of every module.
pub struct Resolver<'a> {
    pub module: &'a String,
    pub uses: &'a Vec<UseDecl>,
    pub own: &'a ModuleDefs,
    pub all: &'a Vec<(String, ModuleDefs)>,
    pub inlines: &'a Vec<(String, Vec<crate::ast::InlineDef>)>,
}

/// A function, constructor or type name in a call head: an operator as it
/// is, a qualified name with its prefix resolved, a name the module defines
/// qualified by the module, or a name a `require` brings in.
pub open spec fn value_name_result(module: Seq<char>, own: ModuleDefs, uses: Seq<UseDecl>,
    all: Seq<(String, ModuleDefs)>, name: Seq<char>) -> Result<Seq<char>, Seq<char>>
{
    if passes_through(name) {
        Ok(name)
    } else {
        match split_qualified_spec(name) {
            Some((p, item)) => match prefix_result(uses, all, p) {
                Ok(m) => Ok(qualified(m, item)),
                Err(e) => Err(e),
            },
            None => if listed(own.fns@, name) || listed(own.types@, name) || listed(own.variants@, name) {
                Ok(qualified(module, name))
            } else {
                match from_uses(uses, all, name, false) {
                    Some(q) => Ok(q),
                    None => Err("unresolved name '"@ + name + "'"@),
                }
            },
        }
    }
}

/// A type name: a qualified name with its prefix resolved, a type the
/// module defines, or a name a `require` brings in.
pub open spec fn type_name_result(module: Seq<char>, own: ModuleDefs, uses: Seq<UseDecl>,
    all: Seq<(String, ModuleDefs)>, name: Seq<char>) -> Result<Seq<char>, Seq<char>>
{
    match split_qualified_spec(name) {
        Some((p, item)) => match prefix_result(uses, all, p) {
            Ok(m) => Ok(qualified(m, item)),
            Err(e) => Err(e),
        },
        None => if listed(own.types@, name) {
            Ok(qualified(module, name))
        } else {
            match from_uses(uses, all, name, false) {
                Some(q) => Ok(q),
                None => Err("unresolved type '"@ + name + "'"@),
            }
        },
    }
}

/// A variant name in a `case` pattern.
pub open spec fn variant_name_result(module: Seq<char>, own: ModuleDefs, uses: Seq<UseDecl>,
    all: Seq<(String, ModuleDefs)>, name: Seq<char>) -> Result<Seq<char>, Seq<char>>
{
    match split_qualified_spec(name) {
        Some((p, item)) => match prefix_result(uses, all, p) {
            Ok(m) => Ok(qualified(m, item)),
            Err(e) => Err(e),
        },
        None => if listed(own.variants@, name) {
            Ok(qualified(module, name))
        } else {
            match from_uses(uses, all, name, false) {
                Some(q) => Ok(q),
                None => Err("unresolved variant '"@ + name + "'"@),
            }
        },
    }
}

/// A variable that names a top-level value: qualified by the module that
/// defines it; other variables stay as they are.
pub open spec fn def_name_result(module: Seq<char>, own: ModuleDefs, uses: Seq<UseDecl>,
    all: Seq<(String, ModuleDefs)>, name: Seq<char>) -> Option<Seq<char>>
{
    if listed(own.values@, name) {
        Some(qualified(module, name))
    } else {
        from_uses(uses, all, name, true)
    }
}

impl<'a> Resolver<'a> {
    /// The resolver's inputs are consistent: each module is recorded once.
    pub open spec fn wf(&self) -> bool {
        entry_names_unique(self.all@)
    }

    /// Resolves a name in a call head.
    pub fn resolve_value_name(&self, name: &str, span: Span) -> (r: DslResult<String>)
        requires
            self.wf(),
        ensures
            result_view(r) == value_name_result(self.module@, *self.own, self.uses@, self.all@, name@),
    {
        let cs = crate::text::chars_of(name);
        proof {
            reveal_strlit("+");
            reveal_strlit("-");
            reveal_strlit("*");
            reveal_strlit("/");
            reveal_strlit("dbg");
        }
        if crate::text::str_is(name, "+") || crate::text::str_is(name, "-") || crate::text::str_is(name, "*")
            || crate::text::str_is(name, "/") || crate::text::str_is(name, "dbg")
        {
            return Ok(string_from_chars(cs.as_slice()));
        }
        if let Some((prefix, item)) = split_qualified(name) {
            return match resolve_module_prefix(self.uses, self.all, prefix.as_str(), span) {
                Ok(m) => Ok(qualify(m.as_str(), item.as_str())),
                Err(e) => Err(e),
            };
        }
        if is_listed(&self.own.fns, name) || is_listed(&self.own.types, name) || is_listed(&self.own.variants, name) {
            return Ok(qualify(self.module.as_str(), name));
        }
        match resolve_from_uses(self.uses, self.all, name, false) {
            Some(q) => Ok(q),
            None => {
                let msg = concat3("unresolved name '", name, "'");
                Err(Diag::from_message(msg).with_span(span))
            },
        }
    }

    /// Resolves a type name.
    pub fn resolve_type_name(&self, name: &str, span: Span) -> (r: DslResult<String>)
        requires
            self.wf(),
        ensures
            result_view(r) == type_name_result(self.module@, *self.own, self.uses@, self.all@, name@),
    {
        if let Some((prefix, item)) = split_qualified(name) {
            return match resolve_module_prefix(self.uses, self.all, prefix.as_str(), span) {
                Ok(m) => Ok(qualify(m.as_str(), item.as_str())),
                Err(e) => Err(e),
            };
        }
        if is_listed(&self.own.types, name) {
            return Ok(qualify(self.module.as_str(), name));
        }
        match resolve_from_uses(self.uses, self.all, name, false) {
            Some(q) => Ok(q),
            None => {
                let msg = concat3("unresolved type '", name, "'");
                Err(Diag::from_message(msg).with_span(span))
            },
        }
    }

    /// Resolves a variant name.
    pub fn resolve_variant_name(&self, name: &str, span: Span) -> (r: DslResult<String>)
        requires
            self.wf(),
        ensures
            result_view(r) == variant_name_result(self.module@, *self.own, self.uses@, self.all@, name@),
    {
        if let Some((prefix, item)) = split_qualified(name) {
            return match resolve_module_prefix(self.uses, self.all, prefix.as_str(), span) {
                Ok(m) => Ok(qualify(m.as_str(), item.as_str())),
                Err(e) => Err(e),
            };
        }
        if is_listed(&self.own.variants, name) {
            return Ok(qualify(self.module.as_str(), name));
        }
        match resolve_from_uses(self.uses, self.all, name, false) {
            Some(q) => Ok(q),
            None => {
                let msg = concat3("unresolved variant '", name, "'");
                Err(Diag::from_message(msg).with_span(span))
            },
        }
    }

    /// Resolves a variable that may name a top-level value.
    pub fn resolve_def_name(&self, name: &str) -> (r: Option<String>)
        requires
            self.wf(),
        ensures
            match r {
                None => def_name_result(self.module@, *self.own, self.uses@, self.all@, name@) is None,
                Some(q) => def_name_result(self.module@, *self.own, self.uses@, self.all@, name@) == Some(q@),
            },
    {
        if is_listed(&self.own.values, name) {
            return Some(qualify(self.module.as_str(), name));
        }
        resolve_from_uses(self.uses, self.all, name, true)
    }
}

/// An auto-qualified symbol literal: `::name` belongs to the current
/// module and `::alias/name` to the module the prefix names; other symbol
/// literals stay as they are. `Err` holds the message.
pub open spec fn symbol_result(module: Seq<char>, uses: Seq<UseDecl>, all: Seq<(String, ModuleDefs)>, s: Seq<char>) -> Result<Seq<char>, Seq<char>> {
    if s.len() >= 2 && s[0] == ':' && s[1] == ':' {
        let body = s.subrange(2, s.len() as int);
        match split_qualified_spec(body) {
            Some((p, item)) => match prefix_result(uses, all, p) {
                Ok(m) => Ok(seq![':'] + qualified(m, item)),
                Err(e) => Err(e),
            },
            None => Ok(seq![':'] + qualified(module, body)),
        }
    } else {
        Ok(s)
    }
}

fn find_inline_last(defs: &Vec<crate::ast::InlineDef>, name: &str) -> (r: Option<usize>)
    ensures
        r matches Some(i) ==> i < defs@.len() && defs@[i as int].name@ == name@,
{
    let mut i: usize = defs.len();
    while i > 0
        invariant
            i <= defs@.len(),
        decreases i,
    {
        if str_is(defs[i - 1].name.as_str(), name) {
            return Some(i - 1);
        }
        i = i - 1;
    }
    None
}

fn inlines_of<'b>(inlines: &'b Vec<(String, Vec<crate::ast::InlineDef>)>, module: &str) -> (r: Option<&'b Vec<crate::ast::InlineDef>>) {
    let mut i: usize = 0;
    while i < inlines.len()
        invariant
            i <= inlines@.len(),
        decreases inlines@.len() - i,
    {
        if str_is(inlines[i].0.as_str(), module) {
            return Some(&inlines[i].1);
        }
        i = i + 1;
    }
    None
}

impl<'a> Resolver<'a> {
    /// Resolves an auto-qualified symbol literal.
    pub fn resolve_symbol(&self, s: &String, span: Span) -> (r: DslResult<String>)
        requires
            self.wf(),
        ensures
            result_view(r) == symbol_result(self.module@, self.uses@, self.all@, s@),
    {
        let cs = string_chars(s);
        if cs.len() >= 2 && cs[0] == ':' && cs[1] == ':' {
            let body = sub_string(cs.as_slice(), 2, cs.len());
            proof { reveal_strlit(":"); assert(":"@ =~= seq![':']); }
            match split_qualified(body.as_str()) {
                Some((p, item)) => match resolve_module_prefix(self.uses, self.all, p.as_str(), span) {
                    Ok(m) => {
                        let q = qualify(m.as_str(), item.as_str());
                        Ok(concat2(":", q.as_str()))
                    },
                    Err(e) => Err(e),
                },
                None => {
                    let q = qualify(self.module.as_str(), body.as_str());
                    Ok(concat2(":", q.as_str()))
                },
            }
        } else {
            Ok(copy(s))
        }
    }

    /// The inline function that a call head names: through its module
    /// prefix, among the module's own inline functions, or brought in by a
    /// `require`.
    pub fn resolve_inline_def(&self, op: &str, span: Span) -> (r: DslResult<Option<crate::ast::InlineDef>>)
        requires
            self.wf(),
    {
        if let Some((prefix, item)) = split_qualified(op) {
            let module = match resolve_module_prefix(self.uses, self.all, prefix.as_str(), span) {
                Ok(m) => m,
                Err(e) => return Err(e),
            };
            return match inlines_of(self.inlines, module.as_str()) {
                Some(defs) => match find_inline_last(defs, item.as_str()) {
                    Some(k) => Ok(Some(defs[k].clone())),
                    None => Ok(None),
                },
                None => Ok(None),
            };
        }
        if let Some(defs) = inlines_of(self.inlines, self.module.as_str()) {
            if let Some(k) = find_inline_last(defs, op) {
                return Ok(Some(defs[k].clone()));
            }
        }
        let mut i: usize = 0;
        while i < self.uses.len()
            invariant
                i <= self.uses@.len(),
                self.wf(),
            decreases self.uses@.len() - i,
        {
            let u = &self.uses[i];
            if let Ok(m) = module_name_from_import(u.path.as_str()) {
                if let Some(k) = find_entry(self.all, m.as_str()) {
                    if (u.open || listed_opt(&u.only, op)) && is_listed(&self.all[k].1.inlines, op) {
                        if let Some(defs) = inlines_of(self.inlines, m.as_str()) {
                            if let Some(j) = find_inline_last(defs, op) {
                                return Ok(Some(defs[j].clone()));
                            }
                        }
                    }
                }
            }
            i = i + 1;
        }
        Ok(None)
    }

    /// Resolves the names in a type.
    pub fn resolve_type(&self, ty: &crate::ast::Ty, span: Span) -> (r: DslResult<crate::ast::Ty>)
        requires
            self.wf(),
        decreases ty,
    {
        use_type_names(self, ty, span)
    }
}

/// What a type name becomes in the module of `res`: a primitive stays,
/// another name resolves as a type name.
pub open spec fn type_name_use(res: Resolver, n: Seq<char>) -> Result<Seq<char>, Seq<char>> {
    if module_primitive(n) {
        Ok(n)
    } else {
        type_name_result(res.module@, *res.own, res.uses@, res.all@, n)
    }
}

/// Every name in the type `t` resolves.
pub open spec fn ty_names_ok(res: Resolver, t: crate::ast::Ty) -> bool
    decreases t,
{
    match t {
        crate::ast::Ty::Named(n) => type_name_use(res, n@) is Ok,
        crate::ast::Ty::Vec(x) => ty_names_ok(res, *x),
        crate::ast::Ty::SetOf(x) => ty_names_ok(res, *x),
        crate::ast::Ty::Option(x) => ty_names_ok(res, *x),
        crate::ast::Ty::Result(x, y) => ty_names_ok(res, *x) && ty_names_ok(res, *y),
        crate::ast::Ty::MapOf(_, x, y) => ty_names_ok(res, *x) && ty_names_ok(res, *y),
        crate::ast::Ty::Union(xs) => forall|i: int| 0 <= i < xs@.len() ==> ty_names_ok(res, #[trigger] xs@[i]),
        _ => true,
    }
}

/// `y` is the type `t` with each name replaced by what it resolves to.
pub open spec fn ty_names_used(res: Resolver, y: crate::ast::Ty, t: crate::ast::Ty) -> bool
    decreases t,
{
    match (t, y) {
        (crate::ast::Ty::Named(n), crate::ast::Ty::Named(m)) => type_name_use(res, n@) == Ok::<Seq<char>, Seq<char>>(m@),
        (crate::ast::Ty::Vec(x), crate::ast::Ty::Vec(z)) => ty_names_used(res, *z, *x),
        (crate::ast::Ty::SetOf(x), crate::ast::Ty::SetOf(z)) => ty_names_used(res, *z, *x),
        (crate::ast::Ty::Option(x), crate::ast::Ty::Option(z)) => ty_names_used(res, *z, *x),
        (crate::ast::Ty::Result(x1, x2), crate::ast::Ty::Result(z1, z2)) => ty_names_used(res, *z1, *x1) && ty_names_used(res, *z2, *x2),
        (crate::ast::Ty::MapOf(k1, x1, x2), crate::ast::Ty::MapOf(k2, z1, z2)) => k1 == k2
            && ty_names_used(res, *z1, *x1) && ty_names_used(res, *z2, *x2),
        (crate::ast::Ty::Union(xs), crate::ast::Ty::Union(zs)) => xs@.len() == zs@.len()
            && forall|i: int| 0 <= i < xs@.len() ==> ty_names_used(res, zs@[i], #[trigger] xs@[i]),
        (crate::ast::Ty::Generic(a), crate::ast::Ty::Generic(b)) => a == b,
        (crate::ast::Ty::Unknown, crate::ast::Ty::Unknown) => true,
        _ => false,
    }
}

/// Every name in the optional type `t` resolves.
pub open spec fn opt_names_ok(res: Resolver, t: Option<crate::ast::Ty>) -> bool {
    match t {
        Some(x) => ty_names_ok(res, x),
        None => true,
    }
}

/// `y` is the optional type `t` with its names resolved.
pub open spec fn opt_names_used(res: Resolver, y: Option<crate::ast::Ty>, t: Option<crate::ast::Ty>) -> bool {
    match (t, y) {
        (Some(x), Some(z)) => ty_names_used(res, z, x),
        (None, None) => true,
        _ => false,
    }
}

fn use_type_names_all(res: &Resolver, xs: &Vec<crate::ast::Ty>, span: Span) -> (r: DslResult<Vec<crate::ast::Ty>>)
    requires
        res.wf(),
    ensures
        r is Ok <==> forall|i: int| 0 <= i < xs@.len() ==> ty_names_ok(*res, #[trigger] xs@[i]),
        r matches Ok(v) ==> v@.len() == xs@.len()
            && forall|i: int| 0 <= i < xs@.len() ==> ty_names_used(*res, v@[i], #[trigger] xs@[i]),
    decreases xs,
{
    let mut out: Vec<crate::ast::Ty> = Vec::new();
    let mut i: usize = 0;
    while i < xs.len()
        invariant
            i <= xs@.len(),
            res.wf(),
            out@.len() == i,
            forall|j: int| 0 <= j < i ==> ty_names_ok(*res, #[trigger] xs@[j]),
            forall|j: int| 0 <= j < i ==> ty_names_used(*res, out@[j], #[trigger] xs@[j]),
        decreases xs@.len() - i,
    {
        match use_type_names(res, &xs[i], span) {
            Ok(t) => out.push(t),
            Err(e) => return Err(e),
        }
        i = i + 1;
    }
    Ok(out)
}

fn use_type_names(res: &Resolver, ty: &crate::ast::Ty, span: Span) -> (r: DslResult<crate::ast::Ty>)
    requires
        res.wf(),
    ensures
        r is Ok <==> ty_names_ok(*res, *ty),
        r matches Ok(y) ==> ty_names_used(*res, y, *ty),
    decreases ty,
{
    match ty {
        crate::ast::Ty::Named(n) => {
            if module_primitive_name(n.as_str()) {
                return Ok(crate::ast::clone_ty(ty));
            }
            match res.resolve_type_name(n.as_str(), span) {
                Ok(full) => Ok(crate::ast::Ty::Named(full)),
                Err(e) => Err(e),
            }
        },
        crate::ast::Ty::Vec(inner) => match use_type_names(res, inner, span) {
            Ok(t) => Ok(crate::ast::Ty::Vec(Box::new(t))),
            Err(e) => Err(e),
        },
        crate::ast::Ty::SetOf(inner) => match use_type_names(res, inner, span) {
            Ok(t) => Ok(crate::ast::Ty::SetOf(Box::new(t))),
            Err(e) => Err(e),
        },
        crate::ast::Ty::Option(inner) => match use_type_names(res, inner, span) {
            Ok(t) => Ok(crate::ast::Ty::Option(Box::new(t))),
            Err(e) => Err(e),
        },
        crate::ast::Ty::Result(ok, err) => {
            let a = match use_type_names(res, ok, span) {
                Ok(t) => t,
                Err(e) => return Err(e),
            };
            let b = match use_type_names(res, err, span) {
                Ok(t) => t,
                Err(e) => return Err(e),
            };
            Ok(crate::ast::Ty::Result(Box::new(a), Box::new(b)))
        },
        crate::ast::Ty::MapOf(kind, k, v) => {
            let a = match use_type_names(res, k, span) {
                Ok(t) => t,
                Err(e) => return Err(e),
            };
            let b = match use_type_names(res, v, span) {
                Ok(t) => t,
                Err(e) => return Err(e),
            };
            Ok(crate::ast::Ty::MapOf(*kind, Box::new(a), Box::new(b)))
        },
        crate::ast::Ty::Union(members) => match use_type_names_all(res, members, span) {
            Ok(out) => Ok(crate::ast::Ty::Union(out)),
            Err(e) => Err(e),
        },
        crate::ast::Ty::Generic(_) | crate::ast::Ty::Unknown => Ok(crate::ast::clone_ty(ty)),
    }
}

/// The measure that bounds how deeply inline calls expand inside one
/// another during resolution. No expansion that the call stack can hold
/// comes near it, so in effect expansion is not bounded.
pub const RESOLVE_INLINE_DEPTH: usize = 4294967295;

fn opt_ty(res: &Resolver, t: &Option<crate::ast::Ty>, span: Span) -> (r: DslResult<Option<crate::ast::Ty>>)
    requires
        res.wf(),
    ensures
        opt_names_ok(*res, *t) <==> r is Ok,
        r matches Ok(y) ==> opt_names_used(*res, y, *t),
{
    match t {
        Some(t) => match use_type_names(res, t, span) {
            Ok(x) => Ok(Some(x)),
            Err(e) => Err(e),
        },
        None => Ok(None),
    }
}

/// The body of the inline function that `op` names, with the arguments put
/// for its parameters; `None` when `op` names no inline function.
pub fn expand_inline_call(res: &Resolver, op: &String, args: &Vec<Expr>, span: Span) -> (r: DslResult<Option<Expr>>)
    requires
        res.wf(),
{
    let inl = match res.resolve_inline_def(op.as_str(), span) {
        Ok(Some(i)) => i,
        Ok(None) => return Ok(None),
        Err(e) => return Err(e),
    };
    if inl.params.len() != args.len() {
        let n = crate::text::usize_to_string(inl.params.len());
        let msg = crate::text::concat5("inline '", inl.name.as_str(), "' expects ", n.as_str(), " arguments");
        return Err(Diag::from_message(msg).with_span(span));
    }
    let mut map: Vec<(String, Expr)> = Vec::new();
    let mut i: usize = args.len();
    while i > 0
        invariant
            i <= args@.len(),
            inl.params@.len() == args@.len(),
        decreases i,
    {
        i = i - 1;
        map.push((copy(&inl.params[i].rust_name), clone_expr(&args[i])));
    }
    Ok(Some(crate::inline::inline_subst_local(&inl.body, &map, &Vec::new())))
}

/// `e` with its names resolved: call heads, value variables, types, case
/// patterns and auto-qualified symbols; calls of inline functions are
/// replaced by their expanded bodies, at most `fuel` deep.
pub fn resolve_expr(res: &Resolver, e: &Expr, fuel: usize) -> (r: DslResult<Expr>)
    requires
        res.wf(),
    decreases fuel, e,
{
    match e {
        Expr::Call { op, args, span } => {
            let expanded = match expand_inline_call(res, op, args, *span) {
                Ok(x) => x,
                Err(err) => return Err(err),
            };
            if let Some(x) = expanded {
                if fuel == 0 {
                    return Err(Diag::new("inline expansion is nested too deeply").with_span(*span));
                }
                return resolve_expr(res, &x, fuel - 1);
            }
            let out = match resolve_exprs(res, args, fuel) {
                Ok(v) => v,
                Err(err) => return Err(err),
            };
            match res.resolve_value_name(op.as_str(), *span) {
                Ok(full) => Ok(Expr::Call { op: full, args: out, span: *span }),
                Err(err) => Err(err),
            }
        },
        Expr::Var(name, span) => match res.resolve_def_name(name.as_str()) {
            Some(full) => Ok(Expr::Var(full, *span)),
            None => Ok(clone_expr(e)),
        },
        Expr::SymbolLit(sym, span) => match res.resolve_symbol(sym, *span) {
            Ok(t) => Ok(Expr::SymbolLit(t, *span)),
            Err(err) => Err(err),
        },
        Expr::If { cond, then_br, else_br, span } => {
            let c = match resolve_expr(res, cond, fuel) {
                Ok(x) => x,
                Err(err) => return Err(err),
            };
            let t = match resolve_expr(res, then_br, fuel) {
                Ok(x) => x,
                Err(err) => return Err(err),
            };
            let el = match else_br {
                Some(b) => match resolve_expr(res, b, fuel) {
                    Ok(x) => Some(Box::new(x)),
                    Err(err) => return Err(err),
                },
                None => None,
            };
            Ok(Expr::If { cond: Box::new(c), then_br: Box::new(t), else_br: el, span: *span })
        },
        Expr::Do { exprs, span } => match resolve_exprs(res, exprs, fuel) {
            Ok(v) => Ok(Expr::Do { exprs: v, span: *span }),
            Err(err) => Err(err),
        },
        Expr::Loop { body, span } => match resolve_expr(res, body, fuel) {
            Ok(b) => Ok(Expr::Loop { body: Box::new(b), span: *span }),
            Err(err) => Err(err),
        },
        Expr::While { cond, body, span } => {
            let c = match resolve_expr(res, cond, fuel) {
                Ok(x) => x,
                Err(err) => return Err(err),
            };
            let b = match resolve_expr(res, body, fuel) {
                Ok(x) => x,
                Err(err) => return Err(err),
            };
            Ok(Expr::While { cond: Box::new(c), body: Box::new(b), span: *span })
        },
        Expr::For { var, iter, body, span } => {
            let it = match iter {
                Iterable::Range(r) => {
                    let start = match resolve_expr(res, &r.start, fuel) {
                        Ok(x) => x,
                        Err(err) => return Err(err),
                    };
                    let end = match resolve_expr(res, &r.end, fuel) {
                        Ok(x) => x,
                        Err(err) => return Err(err),
                    };
                    let step = match &r.step {
                        Some(st) => match resolve_expr(res, st, fuel) {
                            Ok(x) => Some(Box::new(x)),
                            Err(err) => return Err(err),
                        },
                        None => None,
                    };
                    Iterable::Range(RangeExpr { start: Box::new(start), end: Box::new(end), step, inclusive: r.inclusive, span: r.span })
                },
                Iterable::Expr(x) => match resolve_expr(res, x, fuel) {
                    Ok(y) => Iterable::Expr(Box::new(y)),
                    Err(err) => return Err(err),
                },
            };
            let b = match resolve_expr(res, body, fuel) {
                Ok(x) => x,
                Err(err) => return Err(err),
            };
            Ok(Expr::For { var: copy(var), iter: it, body: Box::new(b), span: *span })
        },
        Expr::Let { bindings, body, span } => {
            let out = match resolve_bindings(res, bindings, fuel) {
                Ok(v) => v,
                Err(err) => return Err(err),
            };
            let b = match resolve_expr(res, body, fuel) {
                Ok(x) => x,
                Err(err) => return Err(err),
            };
            Ok(Expr::Let { bindings: out, body: Box::new(b), span: *span })
        },
        Expr::Lambda { params, body, span } => {
            let ps = match resolve_params(res, params) {
                Ok(v) => v,
                Err(err) => return Err(err),
            };
            let b = match resolve_expr(res, body, fuel) {
                Ok(x) => x,
                Err(err) => return Err(err),
            };
            Ok(Expr::Lambda { params: ps, body: Box::new(b), span: *span })
        },
        Expr::CallDyn { func, args, span } => {
            let f = match resolve_expr(res, func, fuel) {
                Ok(x) => x,
                Err(err) => return Err(err),
            };
            let out = match resolve_exprs(res, args, fuel) {
                Ok(v) => v,
                Err(err) => return Err(err),
            };
            Ok(Expr::CallDyn { func: Box::new(f), args: out, span: *span })
        },
        Expr::Break { value, span } => match value {
            Some(v) => match resolve_expr(res, v, fuel) {
                Ok(x) => Ok(Expr::Break { value: Some(Box::new(x)), span: *span }),
                Err(err) => Err(err),
            },
            None => Ok(Expr::Break { value: None, span: *span }),
        },
        Expr::Pair { key, val, span } => {
            let k = match resolve_expr(res, key, fuel) {
                Ok(x) => x,
                Err(err) => return Err(err),
            };
            let v = match resolve_expr(res, val, fuel) {
                Ok(x) => x,
                Err(err) => return Err(err),
            };
            Ok(Expr::Pair { key: Box::new(k), val: Box::new(v), span: *span })
        },
        Expr::Match { scrutinee, arms, span } => {
            let sc = match resolve_expr(res, scrutinee, fuel) {
                Ok(x) => x,
                Err(err) => return Err(err),
            };
            let out = match resolve_arms(res, arms, fuel) {
                Ok(v) => v,
                Err(err) => return Err(err),
            };
            Ok(Expr::Match { scrutinee: Box::new(sc), arms: out, span: *span })
        },
        Expr::VecLit { elems, span, ann } => {
            let out = match resolve_exprs(res, elems, fuel) {
                Ok(v) => v,
                Err(err) => return Err(err),
            };
            let a = match opt_ty(res, ann, *span) {
                Ok(x) => x,
                Err(err) => return Err(err),
            };
            Ok(Expr::VecLit { elems: out, span: *span, ann: a })
        },
        Expr::Field { base, field, span } => match resolve_expr(res, base, fuel) {
            Ok(b) => Ok(Expr::Field { base: Box::new(b), field: copy(field), span: *span }),
            Err(err) => Err(err),
        },
        _ => Ok(clone_expr(e)),
    }
}

fn resolve_exprs(res: &Resolver, xs: &Vec<Expr>, fuel: usize) -> (r: DslResult<Vec<Expr>>)
    requires
        res.wf(),
    decreases fuel, xs,
{
    let mut out: Vec<Expr> = Vec::new();
    let mut i: usize = 0;
    while i < xs.len()
        invariant
            i <= xs@.len(),
            res.wf(),
        decreases xs@.len() - i,
    {
        match resolve_expr(res, &xs[i], fuel) {
            Ok(x) => out.push(x),
            Err(err) => return Err(err),
        }
        i = i + 1;
    }
    Ok(out)
}

fn resolve_bindings(res: &Resolver, bs: &Vec<LetBinding>, fuel: usize) -> (r: DslResult<Vec<LetBinding>>)
    requires
        res.wf(),
    decreases fuel, bs,
{
    let mut out: Vec<LetBinding> = Vec::new();
    let mut i: usize = 0;
    while i < bs.len()
        invariant
            i <= bs@.len(),
            res.wf(),
        decreases bs@.len() - i,
    {
        let b = &bs[i];
        let ann = match opt_ty(res, &b.ann, b.span) {
            Ok(x) => x,
            Err(err) => return Err(err),
        };
        let x = match resolve_expr(res, &b.expr, fuel) {
            Ok(x) => x,
            Err(err) => return Err(err),
        };
        out.push(LetBinding { name: copy(&b.name), rust_name: copy(&b.rust_name), ann, expr: x, span: b.span });
        i = i + 1;
    }
    Ok(out)
}

fn resolve_params(res: &Resolver, ps: &Vec<Param>) -> (r: DslResult<Vec<Param>>)
    requires
        res.wf(),
    ensures
        r is Ok <==> forall|i: int| 0 <= i < ps@.len() ==> opt_names_ok(*res, (#[trigger] ps@[i]).ann),
        r matches Ok(out) ==> out@.len() == ps@.len() && forall|i: int| 0 <= i < ps@.len() ==>
            (#[trigger] out@[i]).name@ == ps@[i].name@ && out@[i].rust_name@ == ps@[i].rust_name@
            && out@[i].span == ps@[i].span && opt_names_used(*res, out@[i].ann, ps@[i].ann),
{
    let mut out: Vec<Param> = Vec::new();
    let mut i: usize = 0;
    while i < ps.len()
        invariant
            i <= ps@.len(),
            out@.len() == i,
            res.wf(),
            forall|j: int| 0 <= j < i ==> opt_names_ok(*res, (#[trigger] ps@[j]).ann),
            forall|j: int| 0 <= j < i ==>
                (#[trigger] out@[j]).name@ == ps@[j].name@ && out@[j].rust_name@ == ps@[j].rust_name@
                && out@[j].span == ps@[j].span && opt_names_used(*res, out@[j].ann, ps@[j].ann),
        decreases ps@.len() - i,
    {
        let p = &ps[i];
        let ann = match opt_ty(res, &p.ann, p.span) {
            Ok(x) => x,
            Err(err) => return Err(err),
        };
        out.push(Param { name: copy(&p.name), rust_name: copy(&p.rust_name), ann, span: p.span });
        i = i + 1;
    }
    Ok(out)
}

fn resolve_pat(res: &Resolver, pat: &MatchPat) -> (r: DslResult<MatchPat>)
    requires
        res.wf(),
    ensures
        match *pat {
            MatchPat::Variant { name, span, .. } => match variant_name_result(res.module@, *res.own, res.uses@, res.all@, name@) {
                Ok(full) => r matches Ok(MatchPat::Variant { name: n2, span: s2, .. }) && n2@ == full && s2 == span,
                Err(m) => r matches Err(e) && e.message@ == m,
            },
            MatchPat::Wildcard(sp) => r == Ok::<MatchPat, Diag>(MatchPat::Wildcard(sp)),
        },
{
    match pat {
        MatchPat::Variant { name, bindings, span } => match res.resolve_variant_name(name.as_str(), *span) {
            Ok(full) => Ok(MatchPat::Variant { name: full, bindings: bindings.clone(), span: *span }),
            Err(err) => Err(err),
        },
        MatchPat::Wildcard(sp) => Ok(MatchPat::Wildcard(*sp)),
    }
}

fn resolve_arms(res: &Resolver, arms: &Vec<MatchArm>, fuel: usize) -> (r: DslResult<Vec<MatchArm>>)
    requires
        res.wf(),
    decreases fuel, arms,
{
    let mut out: Vec<MatchArm> = Vec::new();
    let mut i: usize = 0;
    while i < arms.len()
        invariant
            i <= arms@.len(),
            res.wf(),
        decreases arms@.len() - i,
    {
        let pat = match resolve_pat(res, &arms[i].pat) {
            Ok(p) => p,
            Err(err) => return Err(err),
        };
        let body = match resolve_expr(res, &arms[i].body, fuel) {
            Ok(x) => x,
            Err(err) => return Err(err),
        };
        out.push(MatchArm { pat, body, span: arms[i].span });
        i = i + 1;
    }
    Ok(out)
}

/// A module as loaded: its name, its `require` declarations, its inline
/// functions, and its other top-level forms.
#[derive(Debug)]
pub struct ModuleInfo {
    pub name: String,
    pub uses: Vec<UseDecl>,
    pub inlines: Vec<InlineDef>,
    pub tops: Vec<Top>,
}

/// The name a top-level form defines, for the kinds that a module
/// qualifies.
pub open spec fn defined_name(t: Top) -> Option<Seq<char>> {
    match t {
        Top::Struct(sd) => Some(sd.name@),
        Top::Union(ud) => Some(ud.name@),
        Top::Func(fd) => Some(fd.name@),
        Top::Def(d) => Some(d.name@),
        _ => None,
    }
}

/// Two top-level forms of the same kind.
pub open spec fn same_kind(a: Top, b: Top) -> bool {
    ||| a is Struct && b is Struct
    ||| a is Union && b is Union
    ||| a is Func && b is Func
    ||| a is Def && b is Def
    ||| a is Inline && b is Inline
    ||| a is Use && b is Use
}

/// `b` is `a` with its definitions qualified by `module`: the same kind,
/// the defined name qualified, and for an enum each variant name too.
pub open spec fn qualified_form(module: Seq<char>, a: Top, b: Top) -> bool {
    &&& same_kind(a, b)
    &&& (defined_name(a) matches Some(n) ==> defined_name(b) == Some(qualified(module, n)))
    &&& (a matches Top::Union(ua) ==> (b matches Top::Union(ub) && ub.variants@.len() == ua.variants@.len()
        && forall|j: int| 0 <= j < ua.variants@.len() ==> (#[trigger] ub.variants@[j]).name@ == qualified(module, ua.variants@[j].name@)))
}

fn resolve_fields(res: &Resolver, fields: &Vec<Field>) -> (r: DslResult<Vec<Field>>)
    requires
        res.wf(),
    ensures
        r is Ok <==> forall|i: int| 0 <= i < fields@.len() ==> ty_names_ok(*res, (#[trigger] fields@[i]).ty),
        r matches Ok(out) ==> out@.len() == fields@.len() && forall|i: int| 0 <= i < fields@.len() ==>
            (#[trigger] out@[i]).name@ == fields@[i].name@ && out@[i].rust_name@ == fields@[i].rust_name@
            && out@[i].span == fields@[i].span && ty_names_used(*res, out@[i].ty, fields@[i].ty),
{
    let mut out: Vec<Field> = Vec::new();
    let mut i: usize = 0;
    while i < fields.len()
        invariant
            i <= fields@.len(),
            res.wf(),
            out@.len() == i,
            forall|j: int| 0 <= j < i ==> ty_names_ok(*res, (#[trigger] fields@[j]).ty),
            forall|j: int| 0 <= j < i ==>
                (#[trigger] out@[j]).name@ == fields@[j].name@ && out@[j].rust_name@ == fields@[j].rust_name@
                && out@[j].span == fields@[j].span && ty_names_used(*res, out@[j].ty, fields@[j].ty),
        decreases fields@.len() - i,
    {
        let f = &fields[i];
        let ty = match use_type_names(res, &f.ty, f.span) {
            Ok(t) => t,
            Err(e) => return Err(e),
        };
        out.push(Field { name: copy(&f.name), rust_name: copy(&f.rust_name), ty, span: f.span });
        i = i + 1;
    }
    Ok(out)
}

fn resolve_top(res: &Resolver, t: &Top) -> (r: DslResult<Top>)
    requires
        res.wf(),
    ensures
        r matches Ok(b) ==> qualified_form(res.module@, *t, b),
{
    let module = res.module.as_str();
    match t {
        Top::Struct(sd) => {
            let fields = match resolve_fields(res, &sd.fields) {
                Ok(f) => f,
                Err(e) => return Err(e),
            };
            Ok(Top::Struct(StructDef {
                name: qualify(module, sd.name.as_str()),
                rust_name: copy(&sd.rust_name),
                fields,
                span: sd.span,
                extern_: sd.extern_,
            }))
        },
        Top::Union(ud) => {
            let mut vs: Vec<VariantDef> = Vec::new();
            let mut j: usize = 0;
            while j < ud.variants.len()
                invariant
                    j <= ud.variants@.len(),
                    res.wf(),
                    module@ == res.module@,
                    vs@.len() == j,
                    forall|k: int| 0 <= k < j ==> (#[trigger] vs@[k]).name@ == qualified(res.module@, ud.variants@[k].name@),
                decreases ud.variants@.len() - j,
            {
                let v = &ud.variants[j];
                let fields = match resolve_fields(res, &v.fields) {
                    Ok(f) => f,
                    Err(e) => return Err(e),
                };
                vs.push(VariantDef { name: qualify(module, v.name.as_str()), rust_name: copy(&v.rust_name), fields, span: v.span });
                j = j + 1;
            }
            Ok(Top::Union(UnionDef {
                name: qualify(module, ud.name.as_str()),
                rust_name: copy(&ud.rust_name),
                variants: vs,
                span: ud.span,
                extern_: ud.extern_,
            }))
        },
        Top::Func(fd) => {
            let params = match resolve_params(res, &fd.params) {
                Ok(p) => p,
                Err(e) => return Err(e),
            };
            let extern_ret = match opt_ty(res, &fd.extern_ret, fd.span) {
                Ok(t) => t,
                Err(e) => return Err(e),
            };
            let body = match resolve_expr(res, &fd.body, RESOLVE_INLINE_DEPTH) {
                Ok(b) => b,
                Err(e) => return Err(e),
            };
            Ok(Top::Func(FnDef {
                name: qualify(module, fd.name.as_str()),
                rust_name: copy(&fd.rust_name),
                params,
                body,
                span: fd.span,
                specialize: fd.specialize,
                exported: fd.exported,
                extern_: fd.extern_,
                extern_ret,
            }))
        },
        Top::Def(d) => {
            let ann = match opt_ty(res, &d.ann, d.span) {
                Ok(t) => t,
                Err(e) => return Err(e),
            };
            let expr = match resolve_expr(res, &d.expr, RESOLVE_INLINE_DEPTH) {
                Ok(x) => x,
                Err(e) => return Err(e),
            };
            Ok(Top::Def(Def { name: qualify(module, d.name.as_str()), rust_name: copy(&d.rust_name), ann, expr, span: d.span }))
        },
        Top::Inline(inl) => Ok(Top::Inline(inl.clone())),
        Top::Use(u) => Ok(Top::Use(u.clone())),
    }
}

/// The forms of module `info` with every name resolved and every
/// definition qualified by the module's name.
pub fn resolve_module(info: &ModuleInfo, all: &Vec<(String, ModuleDefs)>, inline_defs: &Vec<(String, Vec<InlineDef>)>) -> (r: DslResult<Vec<Top>>)
    requires
        entry_names_unique(all@),
    ensures
        r matches Ok(out) ==> out@.len() == info.tops@.len()
            && forall|i: int| 0 <= i < out@.len() ==> qualified_form(info.name@, info.tops@[i], #[trigger] out@[i]),
{
    let empty = empty_defs();
    let own = match find_entry(all, info.name.as_str()) {
        Some(k) => &all[k].1,
        None => &empty,
    };
    let res = Resolver { module: &info.name, uses: &info.uses, own, all, inlines: inline_defs };
    let mut out: Vec<Top> = Vec::new();
    let mut i: usize = 0;
    while i < info.tops.len()
        invariant
            i <= info.tops@.len(),
            res.wf(),
            res.module@ == info.name@,
            out@.len() == i,
            forall|k: int| 0 <= k < i ==> qualified_form(info.name@, info.tops@[k], #[trigger] out@[k]),
        decreases info.tops@.len() - i,
    {
        match resolve_top(&res, &info.tops[i]) {
            Ok(t) => out.push(t),
            Err(e) => return Err(e),
        }
        i = i + 1;
    }
    Ok(out)
}

/// The names of loaded modules, in loading order.
pub open spec fn module_names(mods: Seq<ModuleInfo>) -> Seq<Seq<char>> {
    mods.map_values(|m: ModuleInfo| m.name@)
}

/// Whether a module named `name` is loaded.
pub open spec fn loaded(mods: Seq<ModuleInfo>, name: Seq<char>) -> bool {
    module_names(mods).contains(name)
}

/// Finds the loaded module named `name`.
pub fn find_module(mods: &Vec<ModuleInfo>, name: &str) -> (r: Option<usize>)
    ensures
        r matches Some(k) ==> k < mods@.len() && mods@[k as int].name@ == name@,
        r is None ==> !loaded(mods@, name@),
{
    let mut i: usize = 0;
    while i < mods.len()
        invariant
            i <= mods@.len(),
            forall|j: int| 0 <= j < i ==> (#[trigger] mods@[j]).name@ != name@,
        decreases mods@.len() - i,
    {
        if str_is(mods[i].name.as_str(), name) {
            return Some(i);
        }
        i = i + 1;
    }
    proof {
        if loaded(mods@, name@) {
            let k = choose|k: int| 0 <= k < module_names(mods@).len() && module_names(mods@)[k] == name@;
            assert(mods@[k].name@ == name@);
        }
    }
    None
}

/// A module the loader needs: the `require` path as written and the
/// module's name.
#[derive(Debug)]
pub struct ModuleRequest {
    pub import: String,
    pub module: String,
}

/// Loads the modules of a program, one request at a time, and resolves
/// them into one list of top-level forms.
#[derive(Debug)]
pub struct ModuleLoader {
    lib_paths: Vec<String>,
    root: String,
    modules: Vec<ModuleInfo>,
    pending: Vec<String>,
    next: usize,
    next_use: usize,
}

impl ModuleLoader {
    /// Each module is loaded once, and the modules whose `require`s are
    /// still to be read are loaded.
    pub closed spec fn wf(&self) -> bool {
        &&& module_names(self.modules@).no_duplicates()
        &&& self.next <= self.pending@.len()
        &&& forall|i: int| 0 <= i < self.pending@.len() ==> loaded(self.modules@, (#[trigger] self.pending@[i])@)
    }

    /// The loaded modules.
    pub closed spec fn mods(&self) -> Seq<ModuleInfo> {
        self.modules@
    }

    /// The name of the root module.
    pub closed spec fn root_name(&self) -> Seq<char> {
        self.root@
    }

    /// The directories searched for modules.
    pub closed spec fn libs(&self) -> Seq<String> {
        self.lib_paths@
    }

    fn push_module(&mut self, info: ModuleInfo)
        requires
            old(self).wf(),
            !loaded(old(self).modules@, info.name@),
        ensures
            final(self).wf(),
            final(self).modules@ == old(self).modules@.push(info),
            final(self).pending == old(self).pending,
            final(self).next == old(self).next,
            final(self).next_use == old(self).next_use,
            final(self).root == old(self).root,
            final(self).lib_paths == old(self).lib_paths,
    {
        let ghost old_mods = self.modules@;
        self.modules.push(info);
        proof {
            assert(module_names(self.modules@) =~= module_names(old_mods).push(info.name@));
            assert forall|i: int| 0 <= i < self.pending@.len() implies loaded(self.modules@, (#[trigger] self.pending@[i])@) by {
                let n = self.pending@[i]@;
                assert(loaded(old_mods, n));
                let k = choose|k: int| 0 <= k < module_names(old_mods).len() && module_names(old_mods)[k] == n;
                assert(module_names(self.modules@)[k] == n);
            }
        }
    }

    /// Loads module `name` from the source text `src`, unless a module of
    /// that name is loaded.
    fn add_module(&mut self, name: &str, src: &str) -> (r: DslResult<()>)
        requires
            old(self).wf(),
        ensures
            final(self).wf(),
            r is Ok ==> loaded(final(self).modules@, name@),
            loaded(old(self).modules@, name@) ==> r is Ok && final(self).modules@ == old(self).modules@,
            final(self).modules@.len() >= old(self).modules@.len(),
            forall|i: int| 0 <= i < old(self).modules@.len() ==> final(self).modules@[i] == old(self).modules@[i],
            final(self).pending == old(self).pending,
            final(self).next == old(self).next,
            final(self).next_use == old(self).next_use,
            final(self).root == old(self).root,
            final(self).lib_paths == old(self).lib_paths,
    {
        if let Some(k) = find_module(&self.modules, name) {
            proof { assert(module_names(self.modules@)[k as int] == name@); }
            return Ok(());
        }
        let toks = match crate::lexer::lex(src) {
            Ok(t) => t,
            Err(e) => return Err(e),
        };
        let mut p = crate::parser::Parser::new(toks);
        let sexps = match p.parse_all() {
            Ok(x) => x,
            Err(e) => return Err(e),
        };
        let tops = match crate::syntax::parse_toplevel(sexps.as_slice()) {
            Ok(t) => t,
            Err(e) => return Err(e),
        };
        let mut uses: Vec<UseDecl> = Vec::new();
        let mut inlines: Vec<InlineDef> = Vec::new();
        let mut items: Vec<Top> = Vec::new();
        for t in tops {
            match t {
                Top::Use(u) => uses.push(u),
                Top::Inline(inl) => inlines.push(inl),
                other => items.push(other),
            }
        }
        let info = ModuleInfo { name: String::from_str(name), uses, inlines, tops: items };
        self.push_module(info);
        proof { assert(module_names(self.modules@)[self.modules@.len() - 1] == name@); }
        Ok(())
    }

    fn add_builtin_module(&mut self, name: &String)
        requires
            old(self).wf(),
        ensures
            final(self).wf(),
            loaded(final(self).modules@, name@),
            final(self).modules@.len() >= old(self).modules@.len(),
            forall|i: int| 0 <= i < old(self).modules@.len() ==> final(self).modules@[i] == old(self).modules@[i],
            final(self).pending == old(self).pending,
            final(self).next == old(self).next,
            final(self).next_use == old(self).next_use,
            final(self).root == old(self).root,
            final(self).lib_paths == old(self).lib_paths,
    {
        if let Some(k) = find_module(&self.modules, name.as_str()) {
            proof { assert(module_names(self.modules@)[k as int] == name@); }
            return;
        }
        let info = ModuleInfo { name: copy(name), uses: Vec::new(), inlines: Vec::new(), tops: Vec::new() };
        self.push_module(info);
        proof { assert(module_names(self.modules@)[self.modules@.len() - 1] == name@); }
    }

    /// A loader for the program whose root file is `root_path` with source
    /// text `src`, searching `lib_paths` for the modules it requires.
    pub fn new(root_path: &str, src: &str, lib_paths: Vec<String>) -> (r: DslResult<ModuleLoader>)
        ensures
            r matches Ok(l) ==> l.wf() && module_of_file(root_path@) == Some(l.root_name())
                && loaded(l.mods(), l.root_name()) && l.libs() == lib_paths@,
            module_of_file(root_path@) is None ==> r is Err,
    {
        let root = match module_name_from_path(root_path) {
            Ok(m) => m,
            Err(e) => return Err(e),
        };
        let mut l = ModuleLoader { lib_paths, root: copy(&root), modules: Vec::new(), pending: Vec::new(), next: 0, next_use: 0 };
        proof { assert(module_names(l.modules@) =~= Seq::<Seq<char>>::empty()); }
        match l.add_module(root.as_str(), src) {
            Ok(()) => {},
            Err(e) => return Err(e),
        }
        l.pending.push(copy(&root));
        proof {
            assert forall|i: int| 0 <= i < l.pending@.len() implies loaded(l.modules@, (#[trigger] l.pending@[i])@) by {
                assert(l.pending@[i]@ == root@);
            }
        }
        Ok(l)
    }

    /// Reads the `require` declarations of the loaded modules, in order,
    /// from where the last call stopped: modules that come with the
    /// language are loaded on the spot, and the first module that must be
    /// read from a file is asked for. `None` when every required module is
    /// loaded.
    pub fn next_request(&mut self) -> (r: DslResult<Option<ModuleRequest>>)
        requires
            old(self).wf(),
        ensures
            final(self).wf(),
            final(self).root_name() == old(self).root_name(),
            final(self).libs() == old(self).libs(),
            forall|i: int| 0 <= i < old(self).mods().len() ==> final(self).mods()[i] == old(self).mods()[i],
            final(self).mods().len() >= old(self).mods().len(),
            r matches Ok(Some(req)) ==> module_of_path(req.import@) == Some(req.module@)
                && !loaded(final(self).mods(), req.module@) && !is_builtin_module_spec(req.module@),
    {
        let ghost m0 = self.modules@;
        while self.next < self.pending.len()
            invariant
                self.wf(),
                self.root == old(self).root,
                self.lib_paths == old(self).lib_paths,
                self.modules@.len() >= m0.len(),
                forall|i: int| 0 <= i < m0.len() ==> self.modules@[i] == m0[i],
                m0 == old(self).modules@,
            decreases self.pending@.len() - self.next,
        {
            let mut paths: Vec<String> = Vec::new();
            if let Some(k) = find_module(&self.modules, self.pending[self.next].as_str()) {
                let mut j: usize = 0;
                while j < self.modules[k].uses.len()
                    invariant
                        k < self.modules@.len(),
                        j <= self.modules@[k as int].uses@.len(),
                    decreases self.modules@[k as int].uses@.len() - j,
                {
                    paths.push(copy(&self.modules[k].uses[j].path));
                    j = j + 1;
                }
            }
            let ghost pend = self.pending@;
            let ghost cur = self.next;
            while self.next_use < paths.len()
                invariant
                    self.wf(),
                    self.pending@ == pend,
                    self.next == cur,
                    cur < pend.len(),
                    m0 == old(self).modules@,
                    self.root == old(self).root,
                    self.lib_paths == old(self).lib_paths,
                    self.modules@.len() >= m0.len(),
                    forall|i: int| 0 <= i < m0.len() ==> self.modules@[i] == m0[i],
                decreases paths@.len() - self.next_use,
            {
                let path = copy(&paths[self.next_use]);
                self.next_use = self.next_use + 1;
                let m = match module_name_from_import(path.as_str()) {
                    Ok(m) => m,
                    Err(e) => return Err(e),
                };
                if find_module(&self.modules, m.as_str()).is_none() {
                    if is_builtin_module(m.as_str()) {
                        self.add_builtin_module(&m);
                    } else {
                        return Ok(Some(ModuleRequest { import: path, module: m }));
                    }
                }
            }
            self.next = self.next + 1;
            self.next_use = 0;
        }
        Ok(None)
    }

    /// Loads the module asked for by `req` from its source text `src`; its
    /// own `require`s are read by the next calls of `next_request`.
    pub fn provide(&mut self, req: &ModuleRequest, src: &str) -> (r: DslResult<()>)
        requires
            old(self).wf(),
        ensures
            final(self).wf(),
            final(self).root_name() == old(self).root_name(),
            final(self).libs() == old(self).libs(),
            forall|i: int| 0 <= i < old(self).mods().len() ==> final(self).mods()[i] == old(self).mods()[i],
            final(self).mods().len() >= old(self).mods().len(),
            r is Ok ==> loaded(final(self).mods(), req.module@),
    {
        match self.add_module(req.module.as_str(), src) {
            Ok(()) => {},
            Err(e) => return Err(e),
        }
        self.pending.push(copy(&req.module));
        proof {
            assert forall|i: int| 0 <= i < self.pending@.len() implies loaded(self.modules@, (#[trigger] self.pending@[i])@) by {
                if i == self.pending@.len() - 1 {
                    assert(self.pending@[i]@ == req.module@);
                }
            }
        }
        Ok(())
    }
}

/// The file a `require` path names, relative to a library directory:
/// `acme.io` is `acme/io.dsl`.
pub open spec fn module_file(import: Seq<char>) -> Seq<char> {
    import.map_values(|c: char| if c == '.' { '/' } else { c }) + ".dsl"@
}

/// `rel` under directory `base`, as `Path::join` writes it.
pub open spec fn joined(base: Seq<char>, rel: Seq<char>) -> Seq<char> {
    if base.len() == 0 {
        rel
    } else if base.last() == '/' {
        base + rel
    } else {
        base + seq!['/'] + rel
    }
}

/// The file a `require` path names, relative to a library directory.
pub fn module_file_of(import: &str) -> (r: String)
    ensures
        r@ == module_file(import@),
{
    let cs = crate::text::chars_of(import);
    let mut out: Vec<char> = Vec::new();
    let mut i: usize = 0;
    while i < cs.len()
        invariant
            i <= cs@.len(),
            cs@ == import@,
            out@ == cs@.subrange(0, i as int).map_values(|c: char| if c == '.' { '/' } else { c }),
        decreases cs@.len() - i,
    {
        let c = cs[i];
        out.push(if c == '.' { '/' } else { c });
        i = i + 1;
        assert(out@ =~= cs@.subrange(0, i as int).map_values(|c: char| if c == '.' { '/' } else { c }));
    }
    assert(cs@.subrange(0, cs@.len() as int) =~= cs@);
    let stem = string_from_chars(out.as_slice());
    concat2(stem.as_str(), ".dsl")
}

fn join_path(base: &String, rel: &String) -> (r: String)
    ensures
        r@ == joined(base@, rel@),
{
    let cs = string_chars(base);
    if cs.len() == 0 {
        copy(rel)
    } else if cs[cs.len() - 1] == '/' {
        concat2(base.as_str(), rel.as_str())
    } else {
        proof { reveal_strlit("/"); assert("/"@ =~= seq!['/']); }
        concat3(base.as_str(), "/", rel.as_str())
    }
}

/// The message when no library directory holds a required module.
pub fn module_not_found(import: &str) -> (d: Diag)
    ensures
        d.message@ == "module not found: "@ + import@,
        d.span is None,
{
    Diag::from_message(concat2("module not found: ", import))
}

/// The message when a required module's file cannot be read.
pub fn cannot_read_module(import: &str, reason: &str) -> (d: Diag)
    ensures
        d.message@ == "cannot read module "@ + import@ + ": "@ + reason@,
        d.span is None,
{
    Diag::from_message(crate::text::concat4("cannot read module ", import, ": ", reason))
}

impl ModuleLoader {
    /// Where the module of a request may be, in the order to try: its file
    /// under each library directory in turn.
    pub fn candidate_paths(&self, req: &ModuleRequest) -> (r: Vec<String>)
        ensures
            r@.len() == self.libs().len(),
            forall|i: int| 0 <= i < r@.len() ==> (#[trigger] r@[i])@ == joined(self.libs()[i]@, module_file(req.import@)),
    {
        let rel = module_file_of(req.import.as_str());
        let mut out: Vec<String> = Vec::new();
        let mut i: usize = 0;
        while i < self.lib_paths.len()
            invariant
                i <= self.lib_paths@.len(),
                rel@ == module_file(req.import@),
                out@.len() == i,
                forall|j: int| 0 <= j < i ==> (#[trigger] out@[j])@ == joined(self.lib_paths@[j]@, rel@),
            decreases self.lib_paths@.len() - i,
        {
            out.push(join_path(&self.lib_paths[i], &rel));
            i = i + 1;
        }
        out
    }
}

/// A sequence without duplicates whose items all occur in `names` has room
/// in `names` for one more item that it lacks.
proof fn lemma_room_for_one(visited: Seq<Seq<char>>, names: Seq<Seq<char>>, x: Seq<char>)
    requires
        visited.no_duplicates(),
        forall|i: int| 0 <= i < visited.len() ==> names.contains(#[trigger] visited[i]),
        names.contains(x),
        !visited.contains(x),
    ensures
        visited.len() + 1 <= names.len(),
{
    let w = visited.push(x);
    assert(w.no_duplicates()) by {
        assert forall|i: int, j: int| 0 <= i < w.len() && 0 <= j < w.len() && i != j implies w[i] != w[j] by {
            if i < visited.len() && j < visited.len() {
                assert(w[i] == visited[i] && w[j] == visited[j]);
            } else if i == visited.len() as int {
                assert(w[j] == visited[j]);
            } else {
                assert(w[i] == visited[i]);
            }
        }
    }
    w.unique_seq_to_set();
    assert(w.to_set().subset_of(names.to_set())) by {
        assert forall|y: Seq<char>| w.to_set().contains(y) implies names.to_set().contains(y) by {
            let k = choose|k: int| 0 <= k < w.len() && w[k] == y;
            if k < visited.len() {
                assert(w[k] == visited[k]);
            }
        }
    }
    vstd::set_lib::lemma_len_subset(w.to_set(), names.to_set());
    names.lemma_cardinality_of_set();
}

/// A sequence without duplicates whose items all occur in `names` is no
/// longer than `names`.
proof fn lemma_no_longer(visited: Seq<Seq<char>>, names: Seq<Seq<char>>)
    requires
        visited.no_duplicates(),
        forall|i: int| 0 <= i < visited.len() ==> names.contains(#[trigger] visited[i]),
    ensures
        visited.len() <= names.len(),
{
    visited.unique_seq_to_set();
    assert(visited.to_set().subset_of(names.to_set())) by {
        assert forall|y: Seq<char>| visited.to_set().contains(y) implies names.to_set().contains(y) by {
            let k = choose|k: int| 0 <= k < visited.len() && visited[k] == y;
        }
    }
    vstd::set_lib::lemma_len_subset(visited.to_set(), names.to_set());
    names.lemma_cardinality_of_set();
}

/// Every form in `out` is a form of one of the modules, qualified by it.
pub open spec fn forms_of_modules(mods: Seq<ModuleInfo>, out: Seq<Top>) -> bool {
    forall|i: int| 0 <= i < out.len() ==> exists|k: int, j: int| 0 <= k < mods.len() && 0 <= j < mods[k].tops@.len()
        && qualified_form(mods[k].name@, mods[k].tops@[j], #[trigger] out[i])
}

/// Each module resolved, its forms lined up with the module's forms.
pub open spec fn resolved_forms(mods: Seq<ModuleInfo>, tops_of: Seq<DslResult<Vec<Top>>>) -> bool {
    &&& tops_of.len() == mods.len()
    &&& forall|k: int| 0 <= k < mods.len() ==> ((#[trigger] tops_of[k]) matches Ok(v) && v@.len() == mods[k].tops@.len()
        && forall|j: int| 0 <= j < mods[k].tops@.len() ==> qualified_form(mods[k].name@, mods[k].tops@[j], #[trigger] v@[j]))
}

/// A copy of a top-level form of the same kind, with the same defined
/// name and the same variant names.
fn copy_top(t: &Top) -> (r: Top)
    ensures
        same_kind(*t, r),
        defined_name(r) == defined_name(*t),
        t matches Top::Union(a) ==> (r matches Top::Union(b) && b.variants@.len() == a.variants@.len()
            && forall|j: int| 0 <= j < a.variants@.len() ==> (#[trigger] b.variants@[j]).name@ == a.variants@[j].name@),
{
    match t {
        Top::Struct(sd) => Top::Struct(StructDef {
            name: copy(&sd.name),
            rust_name: copy(&sd.rust_name),
            fields: sd.fields.clone(),
            span: sd.span,
            extern_: sd.extern_,
        }),
        Top::Union(ud) => {
            let mut vs: Vec<VariantDef> = Vec::new();
            let mut j: usize = 0;
            while j < ud.variants.len()
                invariant
                    j <= ud.variants@.len(),
                    vs@.len() == j,
                    forall|i: int| 0 <= i < j ==> (#[trigger] vs@[i]).name@ == ud.variants@[i].name@,
                decreases ud.variants@.len() - j,
            {
                let v = &ud.variants[j];
                vs.push(VariantDef { name: copy(&v.name), rust_name: copy(&v.rust_name), fields: v.fields.clone(), span: v.span });
                j = j + 1;
            }
            Top::Union(UnionDef { name: copy(&ud.name), rust_name: copy(&ud.rust_name), variants: vs, span: ud.span, extern_: ud.extern_ })
        },
        Top::Func(fd) => Top::Func(FnDef {
            name: copy(&fd.name),
            rust_name: copy(&fd.rust_name),
            params: fd.params.clone(),
            body: clone_expr(&fd.body),
            span: fd.span,
            specialize: fd.specialize,
            exported: fd.exported,
            extern_: fd.extern_,
            extern_ret: match &fd.extern_ret {
                Some(t) => Some(crate::ast::clone_ty(t)),
                None => None,
            },
        }),
        Top::Def(d) => Top::Def(Def {
            name: copy(&d.name),
            rust_name: copy(&d.rust_name),
            ann: match &d.ann {
                Some(t) => Some(crate::ast::clone_ty(t)),
                None => None,
            },
            expr: clone_expr(&d.expr),
            span: d.span,
        }),
        Top::Inline(inl) => Top::Inline(inl.clone()),
        Top::Use(u) => Top::Use(u.clone()),
    }
}

fn emit_module(mods: &Vec<ModuleInfo>, tops_of: &Vec<DslResult<Vec<Top>>>, name: &String, visited: &mut Vec<String>, out: &mut Vec<Top>) -> (r: DslResult<()>)
    requires
        module_names(mods@).no_duplicates(),
        resolved_forms(mods@, tops_of@),
        names_view(old(visited)@).no_duplicates(),
        forall|i: int| 0 <= i < old(visited)@.len() ==> loaded(mods@, (#[trigger] old(visited)@[i])@),
        forms_of_modules(mods@, old(out)@),
    ensures
        names_view(final(visited)@).no_duplicates(),
        forall|i: int| 0 <= i < final(visited)@.len() ==> loaded(mods@, (#[trigger] final(visited)@[i])@),
        final(visited)@.len() >= old(visited)@.len(),
        forms_of_modules(mods@, final(out)@),
    decreases mods@.len() - visited@.len(),
{
    if is_listed(visited, name.as_str()) {
        return Ok(());
    }
    let k = match find_module(mods, name.as_str()) {
        Some(k) => k,
        None => {
            let msg = concat3("internal error: missing module '", name.as_str(), "'");
            return Err(Diag::from_message(msg));
        },
    };
    proof {
        assert(module_names(mods@)[k as int] == name@);
        assert forall|i: int| 0 <= i < names_view(visited@).len() implies module_names(mods@).contains(#[trigger] names_view(visited@)[i]) by {
            assert(names_view(visited@)[i] == visited@[i]@);
            assert(loaded(mods@, visited@[i]@));
        }
        assert(!names_view(visited@).contains(name@)) by {
            if names_view(visited@).contains(name@) {
                let j = choose|j: int| 0 <= j < names_view(visited@).len() && names_view(visited@)[j] == name@;
                assert(visited@[j]@ == name@);
            }
        }
        lemma_room_for_one(names_view(visited@), module_names(mods@), name@);
    }
    let ghost v0 = visited@;
    visited.push(copy(name));
    proof {
        assert(names_view(visited@) =~= names_view(v0).push(name@));
        assert forall|i: int, j: int| 0 <= i < names_view(visited@).len() && 0 <= j < names_view(visited@).len() && i != j
            implies names_view(visited@)[i] != names_view(visited@)[j] by {
            if i == v0.len() as int && j < v0.len() {
                assert(names_view(v0)[j] == v0[j]@);
                assert(!names_view(v0).contains(name@));
            } else if j == v0.len() as int && i < v0.len() {
                assert(names_view(v0)[i] == v0[i]@);
                assert(!names_view(v0).contains(name@));
            }
        }
        assert(loaded(mods@, name@)) by { assert(module_names(mods@)[k as int] == name@); }
    }
    let ghost entry_len = visited@.len();
    let mut j: usize = 0;
    while j < mods[k].uses.len()
        invariant
            k < mods@.len(),
            j <= mods@[k as int].uses@.len(),
            module_names(mods@).no_duplicates(),
            resolved_forms(mods@, tops_of@),
            names_view(visited@).no_duplicates(),
            forall|i: int| 0 <= i < visited@.len() ==> loaded(mods@, (#[trigger] visited@[i])@),
            visited@.len() >= entry_len,
            entry_len == old(visited)@.len() + 1,
            entry_len <= mods@.len(),
            forms_of_modules(mods@, out@),
        decreases mods@[k as int].uses@.len() - j,
    {
        let m = match module_name_from_import(mods[k].uses[j].path.as_str()) {
            Ok(m) => m,
            Err(e) => return Err(e),
        };
        proof {
            assert forall|i: int| 0 <= i < names_view(visited@).len() implies module_names(mods@).contains(#[trigger] names_view(visited@)[i]) by {
                assert(names_view(visited@)[i] == visited@[i]@);
                assert(loaded(mods@, visited@[i]@));
            }
            lemma_no_longer(names_view(visited@), module_names(mods@));
        }
        match emit_module(mods, tops_of, &m, visited, out) {
            Ok(()) => {},
            Err(e) => return Err(e),
        }
        j = j + 1;
    }
    let v = match &tops_of[k] {
        Ok(v) => v,
        Err(_) => return Ok(()),
    };
    let mut t: usize = 0;
    while t < v.len()
        invariant
            k < mods@.len(),
            resolved_forms(mods@, tops_of@),
            tops_of@[k as int] == Ok::<Vec<Top>, Diag>(*v),
            t <= v@.len(),
            forms_of_modules(mods@, out@),
        decreases v@.len() - t,
    {
        let ghost o0 = out@;
        let c = copy_top(&v[t]);
        out.push(c);
        proof {
            let a = mods@[k as int].tops@[t as int];
            assert(qualified_form(mods@[k as int].name@, a, v@[t as int]));
            assert(qualified_form(mods@[k as int].name@, a, c));
            assert forall|i: int| 0 <= i < out@.len() implies exists|k2: int, j2: int| 0 <= k2 < mods@.len() && 0 <= j2 < mods@[k2].tops@.len()
                && qualified_form(mods@[k2].name@, mods@[k2].tops@[j2], #[trigger] out@[i]) by {
                if i < o0.len() {
                    assert(out@[i] == o0[i]);
                } else {
                    assert(out@[i] == c);
                    assert(qualified_form(mods@[k as int].name@, mods@[k as int].tops@[t as int], out@[i]));
                }
            }
        }
        t = t + 1;
    }
    Ok(())
}

fn defs_entry(info: &ModuleInfo) -> (r: (String, ModuleDefs))
    ensures
        r.0@ == info.name@,
{
    let mut d = collect_module_defs(&info.tops);
    let mut i: usize = 0;
    while i < info.inlines.len()
        invariant
            i <= info.inlines@.len(),
        decreases info.inlines@.len() - i,
    {
        d.inlines.push(copy(&info.inlines[i].name));
        i = i + 1;
    }
    (copy(&info.name), d)
}

/// Adds the definitions of the modules that come with the language.
fn add_builtin_defs(defs: &mut Vec<(String, ModuleDefs)>)
    requires
        entry_names_unique(old(defs)@),
    ensures
        entry_names_unique(final(defs)@),
{
    let table = builtin_module_defs();
    let mut i: usize = 0;
    while i < table.len()
        invariant
            i <= table@.len(),
            entry_names_unique(defs@),
        decreases table@.len() - i,
    {
        let name = &table[i].0;
        match find_entry(defs, name.as_str()) {
            Some(k) => {
                let mut merged = copy_defs(&defs[k].1);
                merge_defs(&mut merged, &table[i].1);
                let key = copy(&defs[k].0);
                let ghost before = defs@;
                defs.set(k, (key, merged));
                proof {
                    assert forall|a: int, b: int| 0 <= a < b < defs@.len() implies (#[trigger] defs@[a]).0@ != (#[trigger] defs@[b]).0@ by {
                        assert(before[a].0@ == defs@[a].0@);
                        assert(before[b].0@ == defs@[b].0@);
                    }
                }
            },
            None => {
                let ghost before = defs@;
                defs.push((copy(name), copy_defs(&table[i].1)));
                proof {
                    assert forall|a: int, b: int| 0 <= a < b < defs@.len() implies (#[trigger] defs@[a]).0@ != (#[trigger] defs@[b]).0@ by {
                        if b == before.len() as int {
                            assert(defs@[a] == before[a]);
                            assert(!(exists|x: int| 0 <= x < before.len() && (#[trigger] before[x]).0@ == name@));
                            assert(before[a].0@ != name@);
                        } else {
                            assert(defs@[a] == before[a]);
                            assert(defs@[b] == before[b]);
                        }
                    }
                }
            },
        }
        i = i + 1;
    }
}

/// Resolves the loaded modules and lists their forms, each module after
/// the modules it requires, starting from the root; each module's forms
/// come once. When several modules fail to resolve, the error is that of
/// the module whose name comes first.
pub fn compile_modules(loader: &ModuleLoader) -> (r: DslResult<Vec<Top>>)
    requires
        loader.wf(),
    ensures
        r matches Ok(out) ==> forms_of_modules(loader.mods(), out@),
{
    let mods = &loader.modules;
    let n = mods.len();
    let mut defs: Vec<(String, ModuleDefs)> = Vec::new();
    let mut inline_defs: Vec<(String, Vec<InlineDef>)> = Vec::new();
    let mut k: usize = 0;
    while k < n
        invariant
            n == mods@.len(),
            k <= n,
            defs@.len() == k,
            forall|j: int| 0 <= j < k ==> (#[trigger] defs@[j]).0@ == mods@[j].name@,
        decreases n - k,
    {
        defs.push(defs_entry(&mods[k]));
        inline_defs.push((copy(&mods[k].name), mods[k].inlines.clone()));
        k = k + 1;
    }
    proof {
        assert(module_names(mods@).no_duplicates());
        assert forall|a: int, b: int| 0 <= a < b < defs@.len() implies (#[trigger] defs@[a]).0@ != (#[trigger] defs@[b]).0@ by {
            assert(module_names(mods@)[a] == mods@[a].name@);
            assert(module_names(mods@)[b] == mods@[b].name@);
        }
    }
    add_builtin_defs(&mut defs);
    let mut results: Vec<DslResult<Vec<Top>>> = Vec::new();
    let mut k: usize = 0;
    while k < n
        invariant
            n == mods@.len(),
            k <= n,
            entry_names_unique(defs@),
            results@.len() == k,
            forall|j: int| 0 <= j < k ==> ((#[trigger] results@[j]) matches Ok(v) ==> v@.len() == mods@[j].tops@.len()
                && forall|t: int| 0 <= t < v@.len() ==> qualified_form(mods@[j].name@, mods@[j].tops@[t], #[trigger] v@[t])),
        decreases n - k,
    {
        results.push(resolve_module(&mods[k], &defs, &inline_defs));
        k = k + 1;
    }
    let mut first_err: Option<usize> = None;
    let mut k: usize = 0;
    while k < n
        invariant
            n == mods@.len(),
            k <= n,
            results@.len() == n,
            first_err matches Some(e) ==> e < n && results@[e as int] is Err,
            first_err is None ==> forall|j: int| 0 <= j < k ==> (#[trigger] results@[j]) is Ok,
        decreases n - k,
    {
        if results[k].is_err() {
            let better = match first_err {
                None => true,
                Some(e) => crate::typecheck::string_lt(&mods[k].name, &mods[e].name),
            };
            if better {
                first_err = Some(k);
            }
        }
        k = k + 1;
    }
    if let Some(e) = first_err {
        return match &results[e] {
            Err(d) => Err(d.clone()),
            Ok(_) => Err(Diag::new("internal error: resolution failed")),
        };
    }
    let mut visited: Vec<String> = Vec::new();
    let mut out: Vec<Top> = Vec::new();
    proof {
        assert(names_view(visited@) =~= Seq::<Seq<char>>::empty());
    }
    match emit_module(mods, &results, &loader.root, &mut visited, &mut out) {
        Ok(()) => Ok(out),
        Err(e) => Err(e),
    }
}

} // verus!
