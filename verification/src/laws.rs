//! Properties that hold across the library's operations.

use vstd::prelude::*;
use crate::ast::{Expr, Ty};
use crate::syntax::and_or_shape;
use crate::datum::{datum_same, lemma_datum_same_trans, Datum};
use crate::macro_expand::{cons_items, first_item, rest_items};
use crate::infer::{integer_name, names_ty, needs_cast, numeric_name, operand_casts, scalar_binop_result};
use crate::typed::CastHint;
use crate::diag::{DslResult, Span};
use crate::lexer::{is_space, tok_text_at, unescape, Tok, TokKind};
use crate::rt::{first_non_space, joined, last_non_space_end, match_at, next_match, split_from, split_pieces, trimmed, lemma_next_match_bounds};
use crate::type_aliases::alias_target;
use crate::typecheck::{has_arity, name_taken, FnEnv, FnSig, TypeEnv};
use crate::modules::{
    def_name_result, defs_of, first_alias, from_uses, module_of_path, last_index_of, lemma_last_index_of, listed, passes_through, qualified, split_qualified_spec,
    value_name_result, ModuleDefs,
};
use crate::ast::UseDecl;
use crate::manifest_edit::{add_to_section, contains_text, ended, feature_lines, section_end, with_feature_section};

verus! {

/// No two signatures in `sigs` take the same number of parameters.
pub open spec fn arities_distinct(sigs: Seq<FnSig>) -> bool {
    forall|i: int, j: int|
        0 <= i < j < sigs.len() ==> (#[trigger] sigs[i]).params@.len() != (#[trigger] sigs[j]).params@.len()
}

/// Adding an overload keeps the overloads of a name distinct by arity:
/// `FnEnv::insert` adds `sig` only when no overload of `name` has its
/// arity, so a name never has two overloads of one arity.
pub proof fn law_overloads_distinct_by_arity(before: FnEnv, after: FnEnv, name: Seq<char>, sig: FnSig)
    requires
        arities_distinct(before.sigs(name)),
        !has_arity(before.sigs(name), sig.params@.len()),
        after.sigs(name) == before.sigs(name).push(sig),
    ensures
        arities_distinct(after.sigs(name)),
{
    let s = after.sigs(name);
    assert forall|i: int, j: int| 0 <= i < j < s.len() implies
        (#[trigger] s[i]).params@.len() != (#[trigger] s[j]).params@.len() by {
        if j == s.len() - 1 {
            assert(before.sigs(name)[i] == s[i]);
        } else {
            assert(before.sigs(name)[i] == s[i]);
            assert(before.sigs(name)[j] == s[j]);
        }
    }
}

/// A lookup by arity after a successful `FnEnv::insert` finds the inserted
/// signature: it is the only overload of `name` with that arity.
pub proof fn law_insert_then_lookup(before: FnEnv, after: FnEnv, name: Seq<char>, sig: FnSig)
    requires
        !has_arity(before.sigs(name), sig.params@.len()),
        after.sigs(name) == before.sigs(name).push(sig),
    ensures
        has_arity(after.sigs(name), sig.params@.len()),
        forall|j: int| 0 <= j < after.sigs(name).len()
            && (#[trigger] after.sigs(name)[j]).params@.len() == sig.params@.len()
            ==> after.sigs(name)[j] == sig,
{
    let s = after.sigs(name);
    let last = s.len() - 1;
    assert(s[last] == sig);
    assert forall|j: int| 0 <= j < s.len() && (#[trigger] s[j]).params@.len() == sig.params@.len()
        implies s[j] == sig by {
        if j < last {
            assert(before.sigs(name)[j] == s[j]);
        }
    }
}

/// Once an overload of some arity is registered, a second overload of
/// `name` with the same arity is refused by `FnEnv::insert`.
pub proof fn law_duplicate_arity_refused(before: FnEnv, after: FnEnv, name: Seq<char>, sig: FnSig, again: FnSig)
    requires
        after.sigs(name) == before.sigs(name).push(sig),
        again.params@.len() == sig.params@.len(),
    ensures
        has_arity(after.sigs(name), again.params@.len()),
{
    let s = after.sigs(name);
    assert(s[s.len() - 1] == sig);
}

/// Once a record is registered, its name is taken: a second
/// `TypeEnv::insert_struct` or `TypeEnv::insert_union` under that name is
/// refused.
pub proof fn law_struct_name_taken(before: TypeEnv, after: TypeEnv, name: Seq<char>)
    requires
        after.structs@.len() == before.structs@.len() + 1,
        after.structs@[before.structs@.len() as int].name@ == name,
    ensures
        name_taken(after.structs@, after.unions@, after.variants@, name),
{
    let i = before.structs@.len() as int;
    assert(after.structs@[i].name@ == name);
}

/// Resolving a type alias twice gives what resolving it once gives.
pub proof fn law_alias_idempotent(name: Seq<char>)
    ensures
        alias_target(alias_target(name)) == alias_target(name),
{
    reveal_strlit("int");
    reveal_strlit("uint");
    reveal_strlit("float");
    reveal_strlit("double");
    reveal_strlit("long");
    reveal_strlit("ulong");
    reveal_strlit("short");
    reveal_strlit("ushort");
    reveal_strlit("byte");
    reveal_strlit("sbyte");
    reveal_strlit("str");
    reveal_strlit("i64");
    reveal_strlit("u64");
    reveal_strlit("f64");
    reveal_strlit("i16");
    reveal_strlit("u16");
    reveal_strlit("u8");
    reveal_strlit("i8");
    reveal_strlit("string");
    assert("int"@.len() == 3 && "uint"@.len() == 4 && "float"@.len() == 5 && "double"@.len() == 6);
    assert("long"@.len() == 4 && "ulong"@.len() == 5 && "short"@.len() == 5 && "ushort"@.len() == 6);
    assert("byte"@.len() == 4 && "sbyte"@.len() == 5 && "str"@.len() == 3);
    assert("i64"@.len() == 3 && "u64"@.len() == 3 && "f64"@.len() == 3 && "i16"@.len() == 3);
    assert("u16"@.len() == 3 && "u8"@.len() == 2 && "i8"@.len() == 2 && "string"@.len() == 6);
    assert("int"@[1] == 'n' && "str"@[1] == 't');
    assert("i64"@[1] == '6' && "u64"@[1] == '6' && "f64"@[1] == '6' && "i16"@[1] == '1' && "u16"@[1] == '1');
    assert("string"@[0] == 's' && "double"@[0] == 'd' && "ushort"@[0] == 'u');
    let t = alias_target(name);
    if t != name {
        assert(t == "i64"@ || t == "u64"@ || t == "f64"@ || t == "i16"@ || t == "u16"@
            || t == "u8"@ || t == "i8"@ || t == "string"@);
        assert(t != "int"@ && t != "str"@) by {
            if t == "int"@ { assert(t[1] == "int"@[1]); }
            if t == "str"@ { assert(t[1] == "str"@[1]); }
        }
        assert(t != "double"@ && t != "ushort"@) by {
            if t == "double"@ { assert(t[0] == "double"@[0]); }
            if t == "ushort"@ { assert(t[0] == "ushort"@[0]); }
        }
    }
}

/// The result type of an arithmetic operator does not depend on the order
/// of its operands.
pub proof fn law_numeric_promotion_symmetric(a: Ty, b: Ty)
    ensures
        scalar_binop_result(a, b) == scalar_binop_result(b, a),
{
}

proof fn lemma_first_non_space(s: Seq<char>, from: int)
    requires
        0 <= from <= s.len(),
    ensures
        from <= first_non_space(s, from) <= s.len(),
        first_non_space(s, from) < s.len() ==> !is_space(s[first_non_space(s, from)]),
    decreases s.len() - from,
{
    if from < s.len() && is_space(s[from]) {
        lemma_first_non_space(s, from + 1);
    }
}

proof fn lemma_last_non_space_end(s: Seq<char>, to: int)
    requires
        0 <= to <= s.len(),
    ensures
        0 <= last_non_space_end(s, to) <= to,
        last_non_space_end(s, to) > 0 ==> !is_space(s[last_non_space_end(s, to) - 1]),
    decreases to,
{
    if to > 0 && is_space(s[to - 1]) {
        lemma_last_non_space_end(s, to - 1);
    }
}

/// Trimming a trimmed string changes nothing.
pub proof fn law_trim_idempotent(s: Seq<char>)
    ensures
        trimmed(trimmed(s)) == trimmed(s),
{
    lemma_first_non_space(s, 0);
    lemma_last_non_space_end(s, s.len() as int);
    let t = trimmed(s);
    if t.len() > 0 {
        let start = first_non_space(s, 0);
        let end = last_non_space_end(s, s.len() as int);
        assert(t[0] == s[start]);
        assert(t[t.len() - 1] == s[end - 1]);
        assert(first_non_space(t, 0) == 0);
        assert(last_non_space_end(t, t.len() as int) == t.len());
        assert(t.subrange(0, t.len() as int) =~= t);
    } else {
        assert(first_non_space(t, 0) == 0);
        assert(last_non_space_end(t, 0) == 0);
    }
}

proof fn lemma_joined_cons(a: Seq<char>, rest: Seq<Seq<char>>, sep: Seq<char>)
    requires
        rest.len() > 0,
    ensures
        joined(seq![a] + rest, sep) == a + sep + joined(rest, sep),
    decreases rest.len(),
{
    let all = seq![a] + rest;
    assert(all.len() >= 2);
    assert(joined(all, sep) == joined(all.drop_last(), sep) + sep + all.last());
    if rest.len() == 1 {
        assert(all.drop_last() =~= seq![a]);
        assert(joined(seq![a], sep) == a);
        assert(all.last() == rest[0]);
        assert(joined(rest, sep) == rest[0]);
    } else {
        lemma_joined_cons(a, rest.drop_last(), sep);
        assert(all.drop_last() =~= seq![a] + rest.drop_last());
        assert(all.last() == rest.last());
        assert(joined(rest, sep) == joined(rest.drop_last(), sep) + sep + rest.last());
        assert(a + sep + (joined(rest.drop_last(), sep) + sep + rest.last())
            =~= (a + sep + joined(rest.drop_last(), sep)) + sep + rest.last());
    }
}

proof fn lemma_split_from_nonempty(s: Seq<char>, sep: Seq<char>, start: int)
    requires
        sep.len() > 0,
        0 <= start <= s.len(),
    ensures
        split_from(s, sep, start).len() > 0,
{
}

proof fn lemma_joined_split_from(s: Seq<char>, sep: Seq<char>, start: int)
    requires
        sep.len() > 0,
        0 <= start <= s.len(),
    ensures
        joined(split_from(s, sep, start), sep) == s.subrange(start, s.len() as int),
    decreases s.len() - start,
{
    lemma_next_match_bounds(s, sep, start);
    match next_match(s, sep, start) {
        None => {
        },
        Some(k) => {
            let rest = split_from(s, sep, k + sep.len());
            lemma_split_from_nonempty(s, sep, k + sep.len());
            lemma_joined_split_from(s, sep, k + sep.len());
            lemma_joined_cons(s.subrange(start, k), rest, sep);
            assert(match_at(s, sep, k));
            assert(s.subrange(start, k) + sep + s.subrange(k + sep.len(), s.len() as int)
                =~= s.subrange(start, s.len() as int));
        },
    }
}

proof fn lemma_joined_chars(s: Seq<char>, k: int)
    requires
        0 <= k <= s.len(),
    ensures
        joined(seq![Seq::<char>::empty()] + Seq::new(k as nat, |i: int| seq![s[i]]), Seq::empty())
            == s.subrange(0, k),
    decreases k,
{
    let q = seq![Seq::<char>::empty()] + Seq::new(k as nat, |i: int| seq![s[i]]);
    if k == 0 {
        assert(q =~= seq![Seq::<char>::empty()]);
        assert(s.subrange(0, 0) =~= Seq::<char>::empty());
    } else {
        lemma_joined_chars(s, k - 1);
        let p = seq![Seq::<char>::empty()] + Seq::new((k - 1) as nat, |i: int| seq![s[i]]);
        assert(q.drop_last() =~= p);
        assert(q.last() == seq![s[k - 1]]);
        assert(s.subrange(0, k - 1) + Seq::<char>::empty() + seq![s[k - 1]] =~= s.subrange(0, k));
    }
}

/// Joining the pieces of a split with the same separator gives back the
/// string that was split.
pub proof fn law_split_join_roundtrip(s: Seq<char>, sep: Seq<char>)
    ensures
        joined(split_pieces(s, sep), sep) == s,
{
    if sep.len() > 0 {
        lemma_joined_split_from(s, sep, 0);
        assert(s.subrange(0, s.len() as int) =~= s);
    } else {
        let e = Seq::<char>::empty();
        assert(sep =~= e);
        let q = seq![e] + Seq::new(s.len(), |i: int| seq![s[i]]);
        lemma_joined_chars(s, s.len() as int);
        let all = q + seq![e];
        assert(split_pieces(s, sep) == all);
        assert(all.drop_last() =~= q);
        assert(all.last() == e);
        assert(joined(all, sep) == joined(q, sep) + sep + e);
        assert(s.subrange(0, s.len() as int) + e + e =~= s);
    }
}

/// Splitting a qualified name gives back the module and the name: for a
/// name without '/', `split_qualified(qualify(m, n)) == (m, n)`.
pub proof fn law_split_qualified_roundtrip(module: Seq<char>, name: Seq<char>)
    requires
        !name.contains('/'),
    ensures
        split_qualified_spec(qualified(module, name)) == Some((module, name)),
{
    let q = qualified(module, name);
    let k = module.len() as int;
    assert(q[k] == '/');
    assert forall|j: int| k < j < q.len() implies q[j] != '/' by {
        assert(q[j] == name[j - k - 1]);
    }
    lemma_last_index_of(q, '/');
    match last_index_of(q, '/') {
        Some(i) => {
            if i < k {
                assert(q[k] != '/');
            }
            assert(i == k);
        },
        None => {
            assert(q[k] != '/');
        },
    }
    assert(q.subrange(0, k) =~= module);
    assert(q.subrange(k + 1, q.len() as int) =~= name);
}

/// A function that a module defines is called by its plain name inside the
/// module, and the call resolves to the name qualified by the module.
pub proof fn law_own_function_resolves(module: Seq<char>, own: ModuleDefs, uses: Seq<UseDecl>,
    all: Seq<(String, ModuleDefs)>, name: Seq<char>)
    requires
        listed(own.fns@, name),
        !name.contains('/'),
        !passes_through(name),
    ensures
        value_name_result(module, own, uses, all, name) == Ok::<Seq<char>, Seq<char>>(qualified(module, name)),
{
    lemma_last_index_of(name, '/');
    if let Some(i) = last_index_of(name, '/') {
        assert(name[i] == '/');
    }
}

/// With `(require [path :as alias])` as the first `require` that uses the
/// alias, `alias/item` resolves to `path/item` when `path` is a module path
/// (and `item` is not empty: "/" alone is division).
pub proof fn law_alias_prefix_resolves(module: Seq<char>, own: ModuleDefs, uses: Seq<UseDecl>,
    all: Seq<(String, ModuleDefs)>, alias: Seq<char>, item: Seq<char>, path: Seq<char>)
    requires
        !alias.contains('/'),
        !item.contains('/'),
        item.len() > 0,
        first_alias(uses, alias) matches Some(u) && u.path@ == path,
        path.len() > 0,
        crate::ast::is_module_path_spec(path),
    ensures
        value_name_result(module, own, uses, all, qualified(alias, item)) == Ok::<Seq<char>, Seq<char>>(qualified(path, item)),
{
    law_split_qualified_roundtrip(alias, item);
    let q = qualified(alias, item);
    assert(q[alias.len() as int] == '/');
    reveal_strlit("+");
    reveal_strlit("-");
    reveal_strlit("*");
    reveal_strlit("/");
    reveal_strlit("dbg");
    assert(!passes_through(q)) by {
        assert(q.len() >= 2);
        assert("+"@.len() == 1 && "-"@.len() == 1 && "*"@.len() == 1 && "/"@.len() == 1);
        if q == "dbg"@ {
            let k = alias.len() as int;
            assert(0 <= k < 3);
            assert("dbg"@[0] == 'd' && "dbg"@[1] == 'b' && "dbg"@[2] == 'g');
            assert(q[k] == '/');
        }
    }
}

/// A match at `q` is found by a search that starts at or before `q`.
proof fn lemma_match_found(s: Seq<char>, sep: Seq<char>, from: int, q: int)
    requires
        0 <= from <= q,
        match_at(s, sep, q),
    ensures
        next_match(s, sep, from) is Some,
    decreases q - from,
{
    if !match_at(s, sep, from) {
        lemma_match_found(s, sep, from + 1, q);
    }
}

/// Declaring the feature that compiles Darcy sources twice changes nothing
/// more than declaring it once.
pub proof fn law_feature_section_idempotent(t: Seq<char>)
    ensures
        with_feature_section(with_feature_section(t)) == with_feature_section(t),
{
    let dc = "darcy-compiled"@;
    if !contains_text(t, dc) {
        let l = feature_lines();
        reveal_strlit("darcy-compiled");
        reveal_strlit("darcy-compiled = []\ndefault = [\"darcy-compiled\"]\n");
        reveal_strlit("\n");
        reveal_strlit("[features]");
        assert(l.subrange(0, dc.len() as int) =~= dc);
        let u = add_to_section(t, "[features]"@, l);
        match section_end(t, "[features]"@) {
            Some(p) => {
                lemma_next_match_bounds(t, "[features]"@, 0);
                let i = next_match(t, "[features]"@, 0).unwrap();
                let start = i + "[features]"@.len();
                lemma_next_match_bounds(t.subrange(start, t.len() as int), "\n["@, 0);
                assert(0 <= p <= t.len());
                let q: int = p + 1;
                assert(u.subrange(q, q + dc.len() as int) =~= dc);
                lemma_match_found(u, dc, 0, q);
            },
            None => {
                let e = ended(t);
                let q: int = (e.len() + 1 + "[features]"@.len() + 1) as int;
                assert(u.subrange(q, q + dc.len() as int) =~= dc);
                lemma_match_found(u, dc, 0, q);
            },
        }
        assert(contains_text(u, dc));
    }
}


/// Characters of a string literal that are not part of an escape are kept
/// as they are: with no backslash between the quotes, a string token's text
/// is exactly the characters between them, nothing dropped, added or
/// changed.
pub proof fn law_plain_string_kept(input: Seq<char>, t: Tok, i: int, j: int)
    requires
        tok_text_at(input, t, i, j),
        t.kind is Str,
        forall|k: int| i + 1 <= k < j - 1 ==> input[k] != '\\',
    ensures
        t.kind->Str_0@ == input.subrange(i + 1, j - 1),
{
    let raw = input.subrange(i + 1, j - 1);
    assert forall|k: int| 0 <= k < raw.len() implies raw[k] != '\\' by {
        assert(raw[k] == input[i + 1 + k]);
    }
    lemma_unescape_no_backslash(raw);
}

proof fn lemma_unescape_no_backslash(raw: Seq<char>)
    requires
        forall|k: int| 0 <= k < raw.len() ==> raw[k] != '\\',
    ensures
        unescape(raw) == raw,
    decreases raw.len(),
{
    if raw.len() > 0 {
        assert(raw[0] != '\\');
        lemma_unescape_no_backslash(raw.skip(1));
        assert(unescape(raw) =~= raw);
    } else {
        assert(unescape(raw) =~= raw);
    }
}

/// An escape between plain characters stands for one character: `\\n` a
/// newline, `\\t` a tab, `\\r` a carriage return, `\\\\` a backslash and `\\"` a
/// quote; the plain characters before it are kept, and what follows is read
/// on.
pub proof fn law_string_escape(a: Seq<char>, c: char, b: Seq<char>)
    requires
        forall|k: int| 0 <= k < a.len() ==> a[k] != '\\',
    ensures
        ({
            let out = unescape(a + seq!['\\', c] + b);
            &&& out.len() == a.len() + 1 + unescape(b).len()
            &&& out.subrange(0, a.len() as int) == a
            &&& out.subrange(a.len() as int + 1, out.len() as int) == unescape(b)
            &&& c == 'n' ==> out[a.len() as int] == '\n'
            &&& c == 't' ==> out[a.len() as int] == '\t'
            &&& c == 'r' ==> out[a.len() as int] == '\r'
            &&& c == '\\' ==> out[a.len() as int] == '\\'
            &&& c == '"' ==> out[a.len() as int] == '"'
        }),
    decreases a.len(),
{
    let whole = a + seq!['\\', c] + b;
    if a.len() == 0 {
        assert(whole[0] == '\\' && whole[1] == c);
        assert(whole.skip(2) =~= b);
    } else {
        assert(whole[0] == a[0]);
        assert(whole.skip(1) =~= a.skip(1) + seq!['\\', c] + b);
        law_string_escape(a.skip(1), c, b);
        let rest = unescape(a.skip(1) + seq!['\\', c] + b);
        assert(unescape(whole) =~= seq![a[0]] + rest);
        assert(unescape(whole).subrange(0, a.len() as int) =~= seq![a[0]] + rest.subrange(0, a.len() - 1));
        assert(a =~= seq![a[0]] + a.skip(1));
        assert(unescape(whole).subrange(a.len() as int + 1, unescape(whole).len() as int)
            =~= rest.subrange(a.len() as int, rest.len() as int));
    }
}


/// `f64` wins: an arithmetic operator with an `f64` operand and any other
/// numeric operand gives `f64`.
pub proof fn law_f64_operand_wins(a: Ty, b: Ty)
    requires
        a is Named && numeric_name(a->Named_0@),
        b is Named && numeric_name(b->Named_0@),
        a->Named_0@ == "f64"@ || b->Named_0@ == "f64"@,
    ensures
        scalar_binop_result(a, b) == Some("f64"@),
{
}

/// `f32` beats every integer type: an `f32` operand with an `f32` or an
/// integer operand gives `f32`.
pub proof fn law_f32_over_integers(a: Ty, b: Ty)
    requires
        a is Named && numeric_name(a->Named_0@),
        b is Named && numeric_name(b->Named_0@),
        a->Named_0@ != "f64"@ && b->Named_0@ != "f64"@,
        a->Named_0@ == "f32"@ || b->Named_0@ == "f32"@,
    ensures
        scalar_binop_result(a, b) == Some("f32"@),
{
    reveal_strlit("f32");
    reveal_strlit("f64");
}

/// Two operands of one integer type keep it; two different integer types
/// meet in `i64`. Never the left operand's type alone.
pub proof fn law_integer_operands(a: Ty, b: Ty)
    requires
        a is Named && integer_name(a->Named_0@),
        b is Named && integer_name(b->Named_0@),
    ensures
        a->Named_0@ == b->Named_0@ ==> scalar_binop_result(a, b) == Some(a->Named_0@),
        a->Named_0@ != b->Named_0@ ==> scalar_binop_result(a, b) == Some("i64"@),
{
    reveal_strlit("f32");
    reveal_strlit("f64");
    reveal_strlit("i8");
    reveal_strlit("i16");
    reveal_strlit("i32");
    reveal_strlit("i64");
    reveal_strlit("i128");
    reveal_strlit("u8");
    reveal_strlit("u16");
    reveal_strlit("u32");
    reveal_strlit("u64");
    reveal_strlit("u128");
    reveal_strlit("usize");
    reveal_strlit("isize");
    lemma_integer_not_float(a->Named_0@);
    lemma_integer_not_float(b->Named_0@);
}

proof fn lemma_integer_not_float(x: Seq<char>)
    requires
        integer_name(x),
    ensures
        x != "f32"@ && x != "f64"@,
{
    reveal_strlit("f32");
    reveal_strlit("f64");
    reveal_strlit("i8");
    reveal_strlit("i16");
    reveal_strlit("i32");
    reveal_strlit("i64");
    reveal_strlit("i128");
    reveal_strlit("u8");
    reveal_strlit("u16");
    reveal_strlit("u32");
    reveal_strlit("u64");
    reveal_strlit("u128");
    reveal_strlit("usize");
    reveal_strlit("isize");
    assert(x[0] == 'i' || x[0] == 'u');
    assert("f32"@[0] == 'f' && "f64"@[0] == 'f');
}

/// The result of an arithmetic operator on numbers is the type of one of
/// its operands or `i64`, and it is numeric.
pub proof fn law_binop_result_numeric(a: Ty, b: Ty)
    requires
        scalar_binop_result(a, b) is Some,
    ensures
        numeric_name(scalar_binop_result(a, b)->Some_0),
{
    reveal_strlit("f32");
    reveal_strlit("f64");
    reveal_strlit("i64");
}

/// Casts go exactly to the operator's result: every cast recorded targets
/// the result type at the span of an operand, an operand that already has
/// the result type is never cast, and each numeric operand of another type
/// is.
pub proof fn law_casts_target_result(a: Ty, b: Ty, a_sp: Span, b_sp: Span, n: Seq<char>, casts: Seq<CastHint>)
    requires
        operand_casts(a, b, a_sp, b_sp, n, casts),
        a_sp != b_sp,
    ensures
        forall|k: int| 0 <= k < casts.len() ==> names_ty(#[trigger] casts[k].target, n)
            && (casts[k].span == a_sp || casts[k].span == b_sp),
        names_ty(a, n) ==> forall|k: int| 0 <= k < casts.len() ==> (#[trigger] casts[k]).span != a_sp,
        names_ty(b, n) ==> forall|k: int| 0 <= k < casts.len() ==> (#[trigger] casts[k]).span != b_sp,
        a is Named && numeric_name(a->Named_0@) && !names_ty(a, n)
            ==> exists|k: int| 0 <= k < casts.len() && (#[trigger] casts[k]).span == a_sp,
        b is Named && numeric_name(b->Named_0@) && !names_ty(b, n)
            ==> exists|k: int| 0 <= k < casts.len() && (#[trigger] casts[k]).span == b_sp,
{
    if needs_cast(a, n) {
        assert(casts[0].span == a_sp);
    }
    if needs_cast(b, n) {
        assert(casts[casts.len() - 1] == casts.last());
    }
}


/// The requires before `k` name recorded modules, none of which defines
/// the value `name`.
pub open spec fn none_defines_value(uses: Seq<UseDecl>, all: Seq<(String, ModuleDefs)>, name: Seq<char>, k: int) -> bool {
    forall|j: int| 0 <= j < k ==> {
        &&& module_of_path((#[trigger] uses[j]).path@) is Some
        &&& defs_of(all, module_of_path(uses[j].path@)->Some_0) is Some
        &&& !listed(defs_of(all, module_of_path(uses[j].path@)->Some_0)->Some_0.values@, name)
    }
}

proof fn lemma_value_brought_at(uses: Seq<UseDecl>, all: Seq<(String, ModuleDefs)>, name: Seq<char>, k: int,
    m: Seq<char>, d: ModuleDefs)
    requires
        0 <= k < uses.len(),
        none_defines_value(uses, all, name, k),
        module_of_path(uses[k].path@) == Some(m),
        defs_of(all, m) == Some(d),
        listed(d.values@, name),
        uses[k].open || (uses[k].only matches Some(o) && listed(o@, name)),
    ensures
        from_uses(uses, all, name, true) == Some(qualified(m, name)),
    decreases k,
{
    if k > 0 {
        let rest = uses.drop_first();
        assert(uses[0] == uses[0]);
        assert forall|j: int| 0 <= j < k - 1 implies {
            &&& module_of_path((#[trigger] rest[j]).path@) is Some
            &&& defs_of(all, module_of_path(rest[j].path@)->Some_0) is Some
            &&& !listed(defs_of(all, module_of_path(rest[j].path@)->Some_0)->Some_0.values@, name)
        } by {
            assert(rest[j] == uses[j + 1]);
        }
        assert(rest[k - 1] == uses[k]);
        lemma_value_brought_at(rest, all, name, k - 1, m, d);
    }
}

/// `:refer :all` brings every value the required module defines: a
/// variable that the current module does not define, and that no earlier
/// require's module defines, resolves to the name qualified by the first
/// module that is required with `:refer :all` and defines it.
pub proof fn law_refer_all_brings_value(module: Seq<char>, own: ModuleDefs, uses: Seq<UseDecl>,
    all: Seq<(String, ModuleDefs)>, name: Seq<char>, k: int, m: Seq<char>, d: ModuleDefs)
    requires
        !listed(own.values@, name),
        0 <= k < uses.len(),
        none_defines_value(uses, all, name, k),
        module_of_path(uses[k].path@) == Some(m),
        defs_of(all, m) == Some(d),
        uses[k].open,
        listed(d.values@, name),
    ensures
        def_name_result(module, own, uses, all, name) == Some(qualified(m, name)),
{
    lemma_value_brought_at(uses, all, name, k, m, d);
}

/// `:refer [..]` brings the values it lists that the module defines: such a
/// variable resolves to the name qualified by that module.
pub proof fn law_refer_list_brings_value(module: Seq<char>, own: ModuleDefs, uses: Seq<UseDecl>,
    all: Seq<(String, ModuleDefs)>, name: Seq<char>, k: int, m: Seq<char>, d: ModuleDefs)
    requires
        !listed(own.values@, name),
        0 <= k < uses.len(),
        none_defines_value(uses, all, name, k),
        module_of_path(uses[k].path@) == Some(m),
        defs_of(all, m) == Some(d),
        uses[k].only matches Some(o) && listed(o@, name),
        listed(d.values@, name),
    ensures
        def_name_result(module, own, uses, all, name) == Some(qualified(m, name)),
{
    lemma_value_brought_at(uses, all, name, k, m, d);
}


/// The truth value of an expression built from single-binding `let`s,
/// `if`s with an `else` and variables, where every other expression has
/// the value `val` gives it.
pub open spec fn bool_sem(e: Expr, env: Map<Seq<char>, bool>, val: spec_fn(Expr) -> bool) -> bool
    decreases e,
{
    match e {
        Expr::Let { bindings, body, .. } => if bindings@.len() == 1 {
            bool_sem(*body, env.insert(bindings@[0].rust_name@, bool_sem(bindings@[0].expr, env, val)), val)
        } else {
            val(e)
        },
        Expr::If { cond, then_br, else_br, .. } => match else_br {
            Some(el) => if bool_sem(*cond, env, val) { bool_sem(*then_br, env, val) } else { bool_sem(*el, env, val) },
            None => val(e),
        },
        Expr::Var(n, _) => if env.dom().contains(n@) { env[n@] } else { val(e) },
        _ => val(e),
    }
}

/// `e` binds `n` with a single-binding `let`, at its top or in a branch of
/// an `if` below such `let`s.
pub open spec fn binds_name(e: Expr, n: Seq<char>) -> bool
    decreases e,
{
    match e {
        Expr::Let { bindings, body, .. } => (bindings@.len() == 1 && bindings@[0].rust_name@ == n) || binds_name(*body, n),
        Expr::If { then_br, else_br, .. } => binds_name(*then_br, n) || match else_br {
            Some(el) => binds_name(*el, n),
            None => false,
        },
        _ => false,
    }
}

/// An operand that is neither a `let` nor an `if`, and is no variable that
/// `e` binds.
pub open spec fn plain_operand(op: Expr, e: Expr) -> bool {
    &&& !(op is Let)
    &&& !(op is If)
    &&& op matches Expr::Var(n, _) ==> !binds_name(e, n@)
}

proof fn lemma_and_or_sem(is_and: bool, ops: Seq<Expr>, e: Expr, env: Map<Seq<char>, bool>, val: spec_fn(Expr) -> bool)
    requires
        and_or_shape(is_and, ops, e),
        forall|k: int| 0 <= k < ops.len() ==> plain_operand(#[trigger] ops[k], e),
    ensures
        is_and ==> (bool_sem(e, env, val) <==> forall|k: int| 0 <= k < ops.len() ==> bool_sem(#[trigger] ops[k], env, val)),
        !is_and ==> (bool_sem(e, env, val) <==> exists|k: int| 0 <= k < ops.len() && bool_sem(#[trigger] ops[k], env, val)),
    decreases ops.len(),
{
    if ops.len() == 1 {
        if !is_and && bool_sem(e, env, val) {
            assert(bool_sem(ops[0], env, val));
        }
    } else {
        let bindings = e->Let_bindings;
        let body = *e->Let_body;
        let t = bindings@[0].rust_name@;
        let v0 = bool_sem(ops[0], env, val);
        let env2 = env.insert(t, v0);
        let rest = ops.drop_first();
        let sub = if is_and { *body->If_then_br } else { *body->If_else_br->Some_0 };
        assert(binds_name(e, t));
        assert forall|k: int| 0 <= k < rest.len() implies plain_operand(#[trigger] rest[k], sub) by {
            assert(rest[k] == ops[k + 1]);
            assert(plain_operand(ops[k + 1], e));
            if let Expr::Var(n, _) = rest[k] {
                if binds_name(sub, n@) {
                    assert(binds_name(body, n@));
                    assert(binds_name(e, n@));
                }
            }
        }
        lemma_and_or_sem(is_and, rest, sub, env2, val);
        assert forall|k: int| 1 <= k < ops.len() implies bool_sem(#[trigger] ops[k], env2, val) == bool_sem(ops[k], env, val) by {
            assert(plain_operand(ops[k], e));
            assert(rest[k - 1] == ops[k]);
            if let Expr::Var(n, _) = ops[k] {
                assert(n@ != t);
            }
        }
        assert(bool_sem(e, env, val) == bool_sem(body, env2, val));
        assert(env2.dom().contains(t) && env2[t] == v0);
        assert(bool_sem(*body->If_cond, env2, val) == v0);
        if is_and {
            assert(bool_sem(*body->If_else_br->Some_0, env2, val) == v0);
            assert(bool_sem(body, env2, val) == if v0 { bool_sem(sub, env2, val) } else { v0 });
        } else {
            assert(bool_sem(*body->If_then_br, env2, val) == v0);
            assert(bool_sem(body, env2, val) == if v0 { v0 } else { bool_sem(sub, env2, val) });
        }
        if is_and {
            if bool_sem(e, env, val) {
                assert forall|k: int| 0 <= k < ops.len() implies bool_sem(#[trigger] ops[k], env, val) by {
                    if k > 0 {
                        assert(rest[k - 1] == ops[k]);
                    }
                }
            }
            if forall|k: int| 0 <= k < ops.len() ==> bool_sem(#[trigger] ops[k], env, val) {
                assert(bool_sem(ops[0], env, val));
                assert forall|k: int| 0 <= k < rest.len() implies bool_sem(#[trigger] rest[k], env2, val) by {
                    assert(rest[k] == ops[k + 1]);
                }
            }
        } else {
            if bool_sem(e, env, val) {
                if !v0 {
                    let k = choose|k: int| 0 <= k < rest.len() && bool_sem(#[trigger] rest[k], env2, val);
                    assert(rest[k] == ops[k + 1]);
                    assert(bool_sem(ops[k + 1], env, val));
                }
            }
            if exists|k: int| 0 <= k < ops.len() && bool_sem(#[trigger] ops[k], env, val) {
                let k = choose|k: int| 0 <= k < ops.len() && bool_sem(#[trigger] ops[k], env, val);
                if !v0 {
                    assert(k > 0);
                    assert(rest[k - 1] == ops[k]);
                    assert(bool_sem(rest[k - 1], env2, val));
                }
            }
        }
    }
}

/// `(and e1 e2 ...)` is true exactly when every operand is, and
/// `(or e1 e2 ...)` exactly when some operand is, whatever values the
/// operands take: each operand is evaluated once, in order, and
/// `and` stops at a false one while `or` stops at a true one.
pub proof fn law_and_or_truth(is_and: bool, ops: Seq<Expr>, e: Expr, env: Map<Seq<char>, bool>, val: spec_fn(Expr) -> bool)
    requires
        and_or_shape(is_and, ops, e),
        forall|k: int| 0 <= k < ops.len() ==> plain_operand(#[trigger] ops[k], e),
    ensures
        is_and ==> (bool_sem(e, env, val) <==> forall|k: int| 0 <= k < ops.len() ==> bool_sem(#[trigger] ops[k], env, val)),
        !is_and ==> (bool_sem(e, env, val) <==> exists|k: int| 0 <= k < ops.len() && bool_sem(#[trigger] ops[k], env, val)),
{
    lemma_and_or_sem(is_and, ops, e, env, val);
}


/// `(rest x)` removes exactly one item from the front: its result is one
/// item shorter than a non-empty `x` (empty for an empty `x`), and reading
/// it from the front gives `x`'s items from the second on.
pub proof fn law_rest_shortens_by_one(xs: Seq<Datum>, sp: Span, r: DslResult<Datum>)
    requires
        rest_items(xs, sp, r),
    ensures
        r matches Ok(Datum::List(out, _)) && (xs.len() > 0 ==> out@.len() + 1 == xs.len())
            && (xs.len() == 0 ==> out@.len() == 0),
        xs.len() >= 2 ==> (r matches Ok(Datum::List(out, _)) && datum_same(out@[0], xs[1])),
{
}

/// Taking `rest` twice drops the first two items: item `k` of the result is
/// item `k + 2` of `x`.
pub proof fn law_rest_twice(xs: Seq<Datum>, sp: Span, r1: DslResult<Datum>, r2: DslResult<Datum>)
    requires
        rest_items(xs, sp, r1),
        r1 matches Ok(Datum::List(o1, _)) && rest_items(o1@, sp, r2),
    ensures
        r2 matches Ok(Datum::List(o2, _)) && o2@.len() == (if xs.len() >= 2 { xs.len() - 2 } else { 0 })
            && forall|k: int| 0 <= k < o2@.len() ==> datum_same(#[trigger] o2@[k], xs[k + 2]),
{
    let o1 = r1->Ok_0->List_0@;
    let o2 = r2->Ok_0->List_0@;
    assert forall|k: int| 0 <= k < o2.len() implies datum_same(#[trigger] o2[k], xs[k + 2]) by {
        assert(datum_same(o1[k + 1], xs[k + 2]));
        lemma_datum_same_trans(o2[k], o1[k + 1], xs[k + 2]);
    }
}


/// `first` and `rest` take apart what `cons` builds: the `first` of
/// `(cons x y)` is `x`, and its `rest` holds `y`'s items, item for item.
pub proof fn law_first_rest_of_cons(x: Datum, xs: Seq<Datum>, sp: Span, rc: DslResult<Datum>,
    sp1: Span, rf: DslResult<Datum>, sp2: Span, rr: DslResult<Datum>)
    requires
        cons_items(x, xs, sp, rc),
        rc matches Ok(Datum::List(out, _)) && first_item(out@, sp1, rf) && rest_items(out@, sp2, rr),
    ensures
        rf matches Ok(d) && datum_same(d, x),
        rr matches Ok(Datum::List(o2, _)) && o2@.len() == xs.len()
            && forall|k: int| 0 <= k < xs.len() ==> datum_same(#[trigger] o2@[k], xs[k]),
{
    let out = rc->Ok_0->List_0@;
    lemma_datum_same_trans(rf->Ok_0, out[0], x);
    let o2 = rr->Ok_0->List_0@;
    assert forall|k: int| 0 <= k < xs.len() implies datum_same(#[trigger] o2[k], xs[k]) by {
        assert(datum_same(o2[k], out[k + 1]));
        lemma_datum_same_trans(o2[k], out[k + 1], xs[k]);
    }
}


/// The requires before `k` name recorded modules, none of which defines
/// `name` as a type, variant or function, and none of which lists it in
/// `:refer [..]`.
pub open spec fn none_brings_name(uses: Seq<UseDecl>, all: Seq<(String, ModuleDefs)>, name: Seq<char>, k: int) -> bool {
    forall|j: int| 0 <= j < k ==> {
        &&& module_of_path((#[trigger] uses[j]).path@) is Some
        &&& defs_of(all, module_of_path(uses[j].path@)->Some_0) is Some
        &&& !defines_item(defs_of(all, module_of_path(uses[j].path@)->Some_0)->Some_0, name)
        &&& !(uses[j].only matches Some(o) && listed(o@, name))
    }
}

/// `d` defines `name` as a type, variant, function or inline function.
pub open spec fn defines_item(d: ModuleDefs, name: Seq<char>) -> bool {
    listed(d.types@, name) || listed(d.variants@, name) || listed(d.fns@, name) || listed(d.inlines@, name)
}

proof fn lemma_item_brought_at(uses: Seq<UseDecl>, all: Seq<(String, ModuleDefs)>, name: Seq<char>, k: int,
    m: Seq<char>, d: ModuleDefs)
    requires
        0 <= k < uses.len(),
        none_brings_name(uses, all, name, k),
        module_of_path(uses[k].path@) == Some(m),
        defs_of(all, m) == Some(d),
        (uses[k].open && defines_item(d, name)) || (uses[k].only matches Some(o) && listed(o@, name)),
    ensures
        from_uses(uses, all, name, false) == Some(qualified(m, name)),
    decreases k,
{
    if k > 0 {
        let rest = uses.drop_first();
        assert forall|j: int| 0 <= j < k - 1 implies {
            &&& module_of_path((#[trigger] rest[j]).path@) is Some
            &&& defs_of(all, module_of_path(rest[j].path@)->Some_0) is Some
            &&& !defines_item(defs_of(all, module_of_path(rest[j].path@)->Some_0)->Some_0, name)
            &&& !(rest[j].only matches Some(o) && listed(o@, name))
        } by {
            assert(rest[j] == uses[j + 1]);
        }
        assert(rest[k - 1] == uses[k]);
        lemma_item_brought_at(rest, all, name, k - 1, m, d);
    }
}

/// `:refer :all` brings every function, type and variant the required
/// module defines: a plain name that the current module does not define,
/// and that no earlier require brings, resolves to the name qualified by
/// the first module required with `:refer :all` that defines it.
pub proof fn law_refer_all_brings_function(module: Seq<char>, own: ModuleDefs, uses: Seq<UseDecl>,
    all: Seq<(String, ModuleDefs)>, name: Seq<char>, k: int, m: Seq<char>, d: ModuleDefs)
    requires
        !name.contains('/'),
        !passes_through(name),
        !listed(own.fns@, name) && !listed(own.types@, name) && !listed(own.variants@, name),
        0 <= k < uses.len(),
        none_brings_name(uses, all, name, k),
        module_of_path(uses[k].path@) == Some(m),
        defs_of(all, m) == Some(d),
        uses[k].open,
        defines_item(d, name),
    ensures
        value_name_result(module, own, uses, all, name) == Ok::<Seq<char>, Seq<char>>(qualified(m, name)),
{
    lemma_last_index_of(name, '/');
    if let Some(i) = last_index_of(name, '/') {
        assert(name[i] == '/');
    }
    lemma_item_brought_at(uses, all, name, k, m, d);
}

} // verus!
