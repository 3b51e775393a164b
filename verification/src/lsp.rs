//! What the language server computes from a document: completions, the
//! token and type under the cursor, definitions, and simple formatting.

use vstd::prelude::*;
use crate::ast::{clone_ty, Top, Ty};
use crate::darcy_build::{lines_of, views_are};
use crate::diag::Span;
use crate::lexer::{space, utf8_len, Tok};
use crate::rt::last_non_space_end;
use crate::text::{chars_of, copy, sub_string};
use crate::typecheck::TypecheckedProgram;

verus! {

/// The language definitions the editor support is built from.
#[derive(Debug)]
pub struct Defs {
    pub language_id: String,
    pub scope: String,
    pub file_extensions: Vec<String>,
    pub keywords: Vec<String>,
    pub types: Vec<String>,
    pub builtins: Vec<String>,
    pub operators: Vec<String>,
    pub comment_line: String,
    pub comment_block: (String, String),
}

/// What a completion offers.
#[derive(Debug, Clone, Copy, PartialEq, Eq, Structural)]
pub enum CompletionKind {
    Keyword,
    TypeParameter,
    Function,
    Struct,
    Enum,
    Variable,
}

/// The completion that a top-level form offers: its name and kind.
pub open spec fn top_completion(t: Top) -> Option<(Seq<char>, CompletionKind)> {
    match t {
        Top::Struct(s) => Some((s.name@, CompletionKind::Struct)),
        Top::Union(u) => Some((u.name@, CompletionKind::Enum)),
        Top::Func(f) => Some((f.name@, CompletionKind::Function)),
        Top::Def(d) => Some((d.name@, CompletionKind::Variable)),
        Top::Inline(i) => Some((i.name@, CompletionKind::Function)),
        _ => None,
    }
}

/// The completions: the keywords, type names and builtins of the language,
/// then the names the document defines, in order.
pub fn completion_items(keywords: &Vec<String>, types: &Vec<String>, builtins: &Vec<String>, tops: &Vec<Top>)
    -> (r: Vec<(String, CompletionKind)>)
    ensures
        r@.len() >= keywords@.len() + types@.len() + builtins@.len(),
        forall|i: int| 0 <= i < keywords@.len() ==> (#[trigger] r@[i]).0@ == keywords@[i]@
            && r@[i].1 == CompletionKind::Keyword,
        forall|i: int| 0 <= i < types@.len() ==> (#[trigger] r@[keywords@.len() + i]).0@ == types@[i]@
            && r@[keywords@.len() + i].1 == CompletionKind::TypeParameter,
        forall|i: int| 0 <= i < builtins@.len() ==> (#[trigger] r@[keywords@.len() + types@.len() + i]).0@
            == builtins@[i]@ && r@[keywords@.len() + types@.len() + i].1 == CompletionKind::Function,
{
    let mut items: Vec<(String, CompletionKind)> = Vec::new();
    let mut i: usize = 0;
    while i < keywords.len()
        invariant
            i <= keywords@.len(),
            items@.len() == i,
            forall|j: int| 0 <= j < i ==> (#[trigger] items@[j]).0@ == keywords@[j]@ && items@[j].1 == CompletionKind::Keyword,
        decreases keywords@.len() - i,
    {
        items.push((copy(&keywords[i]), CompletionKind::Keyword));
        i = i + 1;
    }
    let k = keywords.len();
    let mut i: usize = 0;
    while i < types.len()
        invariant
            k == keywords@.len(),
            i <= types@.len(),
            items@.len() == k + i,
            forall|j: int| 0 <= j < k ==> (#[trigger] items@[j]).0@ == keywords@[j]@ && items@[j].1 == CompletionKind::Keyword,
            forall|j: int| 0 <= j < i ==> (#[trigger] items@[k + j]).0@ == types@[j]@ && items@[k + j].1 == CompletionKind::TypeParameter,
        decreases types@.len() - i,
    {
        items.push((copy(&types[i]), CompletionKind::TypeParameter));
        i = i + 1;
    }
    let t = types.len();
    let mut i: usize = 0;
    while i < builtins.len()
        invariant
            k == keywords@.len(),
            t == types@.len(),
            i <= builtins@.len(),
            items@.len() == k + t + i,
            forall|j: int| 0 <= j < k ==> (#[trigger] items@[j]).0@ == keywords@[j]@ && items@[j].1 == CompletionKind::Keyword,
            forall|j: int| 0 <= j < t ==> (#[trigger] items@[k + j]).0@ == types@[j]@ && items@[k + j].1 == CompletionKind::TypeParameter,
            forall|j: int| 0 <= j < i ==> (#[trigger] items@[k + t + j]).0@ == builtins@[j]@ && items@[k + t + j].1 == CompletionKind::Function,
        decreases builtins@.len() - i,
    {
        items.push((copy(&builtins[i]), CompletionKind::Function));
        i = i + 1;
    }
    let mut i: usize = 0;
    while i < tops.len()
        invariant
            k == keywords@.len(),
            t == types@.len(),
            i <= tops@.len(),
            items@.len() >= k + t + builtins@.len(),
            forall|j: int| 0 <= j < k ==> (#[trigger] items@[j]).0@ == keywords@[j]@ && items@[j].1 == CompletionKind::Keyword,
            forall|j: int| 0 <= j < t ==> (#[trigger] items@[k + j]).0@ == types@[j]@ && items@[k + j].1 == CompletionKind::TypeParameter,
            forall|j: int| 0 <= j < builtins@.len() ==> (#[trigger] items@[k + t + j]).0@ == builtins@[j]@ && items@[k + t + j].1 == CompletionKind::Function,
        decreases tops@.len() - i,
    {
        match &tops[i] {
            Top::Struct(s) => items.push((copy(&s.name), CompletionKind::Struct)),
            Top::Union(u) => items.push((copy(&u.name), CompletionKind::Enum)),
            Top::Func(f) => items.push((copy(&f.name), CompletionKind::Function)),
            Top::Def(d) => items.push((copy(&d.name), CompletionKind::Variable)),
            Top::Inline(d) => items.push((copy(&d.name), CompletionKind::Function)),
            _ => {},
        }
        i = i + 1;
    }
    items
}

/// Whether the 1-based position (`line`, `col`) lies in `span`: from its
/// start up to, not including, its end.
pub open spec fn span_holds(span: Span, line: usize, col: usize) -> bool {
    span.start.line <= line <= span.end.line
        && !(line == span.start.line && col < span.start.col)
        && !(line == span.end.line && col >= span.end.col)
}

/// Decides `span_holds`.
pub fn span_contains(span: &Span, line: usize, col: usize) -> (b: bool)
    ensures
        b == span_holds(*span, line, col),
{
    if line < span.start.line || line > span.end.line {
        return false;
    }
    if line == span.start.line && col < span.start.col {
        return false;
    }
    if line == span.end.line && col >= span.end.col {
        return false;
    }
    true
}

/// The first token under the 0-based editor position (`line`, `character`).
pub fn token_at_position(tokens: &Vec<Tok>, line: u32, character: u32) -> (r: Option<Tok>)
    requires
        line < u32::MAX,
        character < u32::MAX,
    ensures
        r matches Some(t) ==> exists|i: int| 0 <= i < tokens@.len() && span_holds(tokens@[i].span, (line + 1) as usize,
            (character + 1) as usize) && t.span == tokens@[i].span && forall|j: int| 0 <= j < i
                ==> !span_holds(#[trigger] tokens@[j].span, (line + 1) as usize, (character + 1) as usize),
        r is None ==> forall|j: int| 0 <= j < tokens@.len()
            ==> !span_holds(#[trigger] tokens@[j].span, (line + 1) as usize, (character + 1) as usize),
{
    let l = (line + 1) as usize;
    let c = (character + 1) as usize;
    let mut i: usize = 0;
    while i < tokens.len()
        invariant
            i <= tokens@.len(),
            l == (line + 1) as usize,
            c == (character + 1) as usize,
            forall|j: int| 0 <= j < i ==> !span_holds(#[trigger] tokens@[j].span, l, c),
        decreases tokens@.len() - i,
    {
        if span_contains(&tokens[i].span, l, c) {
            let t = Tok { kind: tokens[i].kind.clone(), span: tokens[i].span };
            return Some(t);
        }
        i = i + 1;
    }
    None
}

/// The editor range of a span: 0-based lines and columns, each truncated
/// to 32 bits.
pub fn span_to_range(span: &Span) -> (r: ((u32, u32), (u32, u32)))
    ensures
        r.0.0 == span.start.line.saturating_sub(1) as u32,
        r.0.1 == span.start.col.saturating_sub(1) as u32,
        r.1.0 == span.end.line.saturating_sub(1) as u32,
        r.1.1 == span.end.col.saturating_sub(1) as u32,
{
    (
        (span.start.line.saturating_sub(1) as u32, span.start.col.saturating_sub(1) as u32),
        (span.end.line.saturating_sub(1) as u32, span.end.col.saturating_sub(1) as u32),
    )
}

/// The byte offset of the 0-based position (`line`, `col`) in `text`
/// (columns count characters), scanning from `i` at position (`l`, `c`),
/// `b` bytes in; a position just past the last character is allowed.
pub open spec fn offset_from(text: Seq<char>, line: nat, col: nat, i: int, l: nat, c: nat, b: nat) -> Option<nat>
    decreases text.len() - i,
{
    if l == line && c == col {
        Some(b)
    } else if i >= text.len() || i < 0 {
        None
    } else if text[i] == '\n' {
        offset_from(text, line, col, i + 1, l + 1, 0, b + utf8_len(text[i]))
    } else {
        offset_from(text, line, col, i + 1, l, c + 1, b + utf8_len(text[i]))
    }
}

/// The byte offset of a 0-based editor position.
pub fn pos_to_byte(text: &str, line: u32, character: u32) -> (r: Option<usize>)
    requires
        text@.len() <= usize::MAX / 4,
    ensures
        match offset_from(text@, line as nat, character as nat, 0, 0, 0, 0) {
            Some(b) => r == Some(b as usize),
            None => r is None,
        },
{
    let cs = chars_of(text);
    let n = cs.len();
    let tl = line as usize;
    let tc = character as usize;
    let mut l: usize = 0;
    let mut c: usize = 0;
    let mut b: usize = 0;
    let mut i: usize = 0;
    while i < n
        invariant
            n == cs@.len(),
            tl == line as usize,
            tc == character as usize,
            n <= usize::MAX / 4,
            cs@ == text@,
            i <= n,
            l <= i,
            c <= i,
            b <= i * 4,
            offset_from(text@, line as nat, character as nat, 0, 0, 0, 0)
                == offset_from(text@, line as nat, character as nat, i as int, l as nat, c as nat, b as nat),
        decreases n - i,
    {
        if l == tl && c == tc {
            proof {
                assert(offset_from(text@, line as nat, character as nat, i as int, l as nat, c as nat, b as nat) == Some(b as nat));
            }
            return Some(b);
        }
        let ch = cs[i];
        let w = crate::lexer::char_utf8_len(ch);
        let ghost (l0, c0, b0) = (l as nat, c as nat, b as nat);
        if ch == '\n' {
            l = l + 1;
            c = 0;
        } else {
            c = c + 1;
        }
        b = b + w;
        proof {
            assert(text@[i as int] == ch);
            assert(offset_from(text@, line as nat, character as nat, i as int, l0, c0, b0)
                == offset_from(text@, line as nat, character as nat, i + 1, l as nat, c as nat, b as nat));
        }
        i = i + 1;
    }
    if l == tl && c == tc {
        proof {
            assert(offset_from(text@, line as nat, character as nat, i as int, l as nat, c as nat, b as nat) == Some(b as nat));
        }
        return Some(b);
    }
    proof {
        assert(offset_from(text@, line as nat, character as nat, i as int, l as nat, c as nat, b as nat) is None);
    }
    None
}

/// Whether the span with key `k` covers the byte `offset`.
pub open spec fn key_covers(k: crate::typed::SpanKey, offset: usize) -> bool {
    k.start <= offset < k.end
}

/// Looks through `types` for a smaller span covering `offset` than `best`.
fn narrow_best(types: &Vec<(crate::typed::SpanKey, Ty)>, offset: usize, best: &mut Option<(usize, Ty)>)
    ensures
        *old(best) matches Some((s, _)) ==> (*final(best) matches Some((s2, _)) && s2 <= s),
        *old(best) is Some ==> *final(best) is Some,
        forall|i: int| 0 <= i < types@.len() && key_covers((#[trigger] types@[i]).0, offset)
            ==> (*final(best) matches Some((s2, _)) && s2 <= types@[i].0.end - types@[i].0.start),
        *final(best) matches Some((s2, t)) ==> ((*old(best) matches Some((s0, t0)) && s2 == s0 && t == t0) || exists|i: int|
            0 <= i < types@.len() && key_covers(types@[i].0, offset) && s2 == types@[i].0.end - types@[i].0.start
            && crate::ast::ty_same(t, types@[i].1)),
{
    let ghost b0 = *best;
    let mut i: usize = 0;
    while i < types.len()
        invariant
            i <= types@.len(),
            b0 matches Some((s, _)) ==> (*best matches Some((s2, _)) && s2 <= s),
            b0 is Some ==> *best is Some,
            forall|j: int| 0 <= j < i && key_covers((#[trigger] types@[j]).0, offset)
                ==> (*best matches Some((s2, _)) && s2 <= types@[j].0.end - types@[j].0.start),
            *best matches Some((s2, t)) ==> ((b0 matches Some((s0, t0)) && s2 == s0 && t == t0) || exists|j: int|
                0 <= j < types@.len() && key_covers(types@[j].0, offset) && s2 == types@[j].0.end - types@[j].0.start
                && crate::ast::ty_same(t, types@[j].1)),
        decreases types@.len() - i,
    {
        let k = types[i].0;
        if k.start <= offset && offset < k.end {
            let size = k.end - k.start;
            let better = match best {
                Some((s, _)) => size < *s,
                None => true,
            };
            if better {
                *best = Some((size, clone_ty(&types[i].1)));
            }
        }
        i = i + 1;
    }
}

/// The size of the span with key `k`.
pub open spec fn key_size(k: crate::typed::SpanKey) -> int {
    k.end - k.start
}

/// Every typed span of `p` that covers `offset` is at least `s` bytes long.
pub open spec fn no_smaller_cover(p: TypecheckedProgram, offset: usize, s: int) -> bool {
    &&& forall|f: int, i: int| 0 <= f < p.typed_fns@.len() && 0 <= i < p.typed_fns@[f].body.types@.len()
        && key_covers((#[trigger] p.typed_fns@[f].body.types@[i]).0, offset)
        ==> s <= key_size(p.typed_fns@[f].body.types@[i].0)
    &&& forall|d: int, i: int| 0 <= d < p.typed_defs@.len() && 0 <= i < p.typed_defs@[d].body.types@.len()
        && key_covers((#[trigger] p.typed_defs@[d].body.types@[i]).0, offset)
        ==> s <= key_size(p.typed_defs@[d].body.types@[i].0)
}

/// Some typed span of `p` of `s` bytes covers `offset` and has type `t`.
pub open spec fn cover_with(p: TypecheckedProgram, offset: usize, s: int, t: Ty) -> bool {
    ||| exists|f: int, i: int| 0 <= f < p.typed_fns@.len() && 0 <= i < p.typed_fns@[f].body.types@.len()
        && key_covers((#[trigger] p.typed_fns@[f].body.types@[i]).0, offset)
        && key_size(p.typed_fns@[f].body.types@[i].0) == s
        && crate::ast::ty_same(t, p.typed_fns@[f].body.types@[i].1)
    ||| exists|d: int, i: int| 0 <= d < p.typed_defs@.len() && 0 <= i < p.typed_defs@[d].body.types@.len()
        && key_covers((#[trigger] p.typed_defs@[d].body.types@[i]).0, offset)
        && key_size(p.typed_defs@[d].body.types@[i].0) == s
        && crate::ast::ty_same(t, p.typed_defs@[d].body.types@[i].1)
}

/// The type of the smallest typed span that covers byte `offset`, in the
/// functions and then the top-level values (the first such span wins a
/// tie).
pub fn find_type_at_offset(program: &TypecheckedProgram, offset: usize) -> (r: Option<Ty>)
    ensures
        r is None ==> forall|f: int, i: int| 0 <= f < program.typed_fns@.len()
            && 0 <= i < program.typed_fns@[f].body.types@.len()
            ==> !key_covers((#[trigger] program.typed_fns@[f].body.types@[i]).0, offset),
        r is None ==> forall|d: int, i: int| 0 <= d < program.typed_defs@.len()
            && 0 <= i < program.typed_defs@[d].body.types@.len()
            ==> !key_covers((#[trigger] program.typed_defs@[d].body.types@[i]).0, offset),
        r matches Some(t) ==> exists|s: int| cover_with(*program, offset, s, t) && no_smaller_cover(*program, offset, s),
{
    let mut best: Option<(usize, Ty)> = None;
    let mut f: usize = 0;
    while f < program.typed_fns.len()
        invariant
            f <= program.typed_fns@.len(),
            best is None ==> forall|g: int, i: int| 0 <= g < f && 0 <= i < program.typed_fns@[g].body.types@.len()
                ==> !key_covers((#[trigger] program.typed_fns@[g].body.types@[i]).0, offset),
            best matches Some((s, t)) ==> cover_with(*program, offset, s as int, t),
            best matches Some((s, t)) ==> forall|g: int, i: int| 0 <= g < f && 0 <= i < program.typed_fns@[g].body.types@.len()
                && key_covers((#[trigger] program.typed_fns@[g].body.types@[i]).0, offset)
                ==> s <= key_size(program.typed_fns@[g].body.types@[i].0),
        decreases program.typed_fns@.len() - f,
    {
        narrow_best(&program.typed_fns[f].body.types, offset, &mut best);
        proof {
            if best is Some {
                let s2 = best->Some_0.0;
                let t2 = best->Some_0.1;
                if !cover_with(*program, offset, s2 as int, t2) {
                    let j = choose|j: int| 0 <= j < program.typed_fns@[f as int].body.types@.len()
                        && key_covers(program.typed_fns@[f as int].body.types@[j].0, offset)
                        && s2 == program.typed_fns@[f as int].body.types@[j].0.end - program.typed_fns@[f as int].body.types@[j].0.start
                        && crate::ast::ty_same(t2, program.typed_fns@[f as int].body.types@[j].1);
                    assert(key_covers(program.typed_fns@[f as int].body.types@[j].0, offset));
                }
            }
        }
        f = f + 1;
    }
    let mut d: usize = 0;
    while d < program.typed_defs.len()
        invariant
            d <= program.typed_defs@.len(),
            best is None ==> forall|g: int, i: int| 0 <= g < program.typed_fns@.len()
                && 0 <= i < program.typed_fns@[g].body.types@.len()
                ==> !key_covers((#[trigger] program.typed_fns@[g].body.types@[i]).0, offset),
            best is None ==> forall|g: int, i: int| 0 <= g < d && 0 <= i < program.typed_defs@[g].body.types@.len()
                ==> !key_covers((#[trigger] program.typed_defs@[g].body.types@[i]).0, offset),
            best matches Some((s, t)) ==> cover_with(*program, offset, s as int, t),
            best matches Some((s, t)) ==> forall|g: int, i: int| 0 <= g < program.typed_fns@.len()
                && 0 <= i < program.typed_fns@[g].body.types@.len()
                && key_covers((#[trigger] program.typed_fns@[g].body.types@[i]).0, offset)
                ==> s <= key_size(program.typed_fns@[g].body.types@[i].0),
            best matches Some((s, t)) ==> forall|g: int, i: int| 0 <= g < d && 0 <= i < program.typed_defs@[g].body.types@.len()
                && key_covers((#[trigger] program.typed_defs@[g].body.types@[i]).0, offset)
                ==> s <= key_size(program.typed_defs@[g].body.types@[i].0),
        decreases program.typed_defs@.len() - d,
    {
        narrow_best(&program.typed_defs[d].body.types, offset, &mut best);
        proof {
            if best is Some {
                let s2 = best->Some_0.0;
                let t2 = best->Some_0.1;
                if !cover_with(*program, offset, s2 as int, t2) {
                    let j = choose|j: int| 0 <= j < program.typed_defs@[d as int].body.types@.len()
                        && key_covers(program.typed_defs@[d as int].body.types@[j].0, offset)
                        && s2 == program.typed_defs@[d as int].body.types@[j].0.end - program.typed_defs@[d as int].body.types@[j].0.start
                        && crate::ast::ty_same(t2, program.typed_defs@[d as int].body.types@[j].1);
                    assert(key_covers(program.typed_defs@[d as int].body.types@[j].0, offset));
                }
            }
        }
        d = d + 1;
    }
    proof {
        if best is Some {
            let s = best->Some_0.0;
            assert(no_smaller_cover(*program, offset, s as int));
        }
    }
    match best {
        Some((_, t)) => Some(t),
        None => None,
    }
}

/// The part of a symbol after its last '/'.
pub open spec fn base_symbol_spec(s: Seq<char>) -> Seq<char> {
    match crate::darcy_build::last_slash(s) {
        Some(k) => s.subrange(k + 1, s.len() as int),
        None => s,
    }
}

/// The name a possibly qualified symbol refers to.
pub fn base_symbol(sym: &str) -> (r: String)
    ensures
        r@ == base_symbol_spec(sym@),
{
    let cs = chars_of(sym);
    match crate::text::rfind_char(cs.as_slice(), '/') {
        Some(k) => {
            assert(k < cs@.len());
            proof {
                lemma_last_slash(cs@, k as int);
            }
            sub_string(cs.as_slice(), k + 1, cs.len())
        },
        None => {
            proof {
                lemma_no_slash(cs@);
            }
            copy_str(sym)
        },
    }
}

fn copy_str(s: &str) -> (r: String)
    ensures
        r@ == s@,
{
    String::from_str(s)
}

proof fn lemma_last_slash(s: Seq<char>, k: int)
    requires
        0 <= k < s.len(),
        s[k] == '/',
        forall|j: int| k < j < s.len() ==> s[j] != '/',
    ensures
        crate::darcy_build::last_slash(s) == Some(k),
    decreases s.len(),
{
    if s.last() != '/' {
        lemma_last_slash(s.drop_last(), k);
    }
}

proof fn lemma_no_slash(s: Seq<char>)
    requires
        !s.contains('/'),
    ensures
        crate::darcy_build::last_slash(s) is None,
    decreases s.len(),
{
    if s.len() > 0 {
        assert(s[s.len() - 1] != '/');
        assert(!s.drop_last().contains('/')) by {
            if s.drop_last().contains('/') {
                let j = choose|j: int| 0 <= j < s.drop_last().len() && s.drop_last()[j] == '/';
                assert(s[j] == '/');
            }
        }
        lemma_no_slash(s.drop_last());
    }
}

/// The span of a top-level form named `name`, if it defines one.
pub open spec fn defines(t: Top, name: Seq<char>) -> Option<Span> {
    match t {
        Top::Struct(s) => if s.name@ == name { Some(s.span) } else { None },
        Top::Union(u) => if u.name@ == name { Some(u.span) } else { None },
        Top::Func(f) => if f.name@ == name { Some(f.span) } else { None },
        Top::Def(d) => if d.name@ == name { Some(d.span) } else { None },
        Top::Inline(i) => if i.name@ == name { Some(i.span) } else { None },
        _ => None,
    }
}

/// Where the first form defining `name` is.
pub fn find_definition(tops: &Vec<Top>, name: &str) -> (r: Option<Span>)
    ensures
        r matches Some(sp) ==> exists|i: int| 0 <= i < tops@.len() && defines(tops@[i], name@) == Some(sp)
            && forall|j: int| 0 <= j < i ==> defines(#[trigger] tops@[j], name@) is None,
        r is None ==> forall|j: int| 0 <= j < tops@.len() ==> defines(#[trigger] tops@[j], name@) is None,
{
    let mut i: usize = 0;
    while i < tops.len()
        invariant
            i <= tops@.len(),
            forall|j: int| 0 <= j < i ==> defines(#[trigger] tops@[j], name@) is None,
        decreases tops@.len() - i,
    {
        let found = match &tops[i] {
            Top::Struct(s) => if crate::text::str_is(s.name.as_str(), name) { Some(s.span) } else { None },
            Top::Union(u) => if crate::text::str_is(u.name.as_str(), name) { Some(u.span) } else { None },
            Top::Func(f) => if crate::text::str_is(f.name.as_str(), name) { Some(f.span) } else { None },
            Top::Def(d) => if crate::text::str_is(d.name.as_str(), name) { Some(d.span) } else { None },
            Top::Inline(n) => if crate::text::str_is(n.name.as_str(), name) { Some(n.span) } else { None },
            _ => None,
        };
        if found.is_some() {
            return found;
        }
        i = i + 1;
    }
    None
}

/// `lines` each without trailing white space and ended by '\n'.
pub open spec fn formatted_lines(lines: Seq<Seq<char>>) -> Seq<char>
    decreases lines.len(),
{
    if lines.len() == 0 {
        Seq::empty()
    } else {
        let l = lines.last();
        formatted_lines(lines.drop_last()) + l.subrange(0, last_non_space_end(l, l.len() as int)) + seq!['\n']
    }
}

/// The document with trailing white space removed from each line and each
/// line ended by '\n'.
pub fn format_simple(text: &str) -> (r: String)
    ensures
        r@ == formatted_lines(lines_of(text@)),
{
    let lines = crate::darcy_build::text_lines(text);
    let ghost ls = lines_of(text@);
    let mut out = String::new();
    let mut i: usize = 0;
    while i < lines.len()
        invariant
            i <= lines@.len(),
            views_are(lines@, ls),
            out@ == formatted_lines(ls.subrange(0, i as int)),
        decreases lines@.len() - i,
    {
        let cs = chars_of(lines[i].as_str());
        let n = cs.len();
        let mut end: usize = n;
        while end > 0 && space(cs[end - 1])
            invariant
                n == cs@.len(),
                end <= n,
                last_non_space_end(cs@, n as int) == last_non_space_end(cs@, end as int),
            decreases end,
        {
            end = end - 1;
        }
        let kept = sub_string(cs.as_slice(), 0, end);
        out.append(kept.as_str());
        out.append("\n");
        proof {
            reveal_strlit("\n");
            let next = ls.subrange(0, i + 1);
            assert(next.drop_last() =~= ls.subrange(0, i as int));
            assert(next.last() == cs@);
            assert(last_non_space_end(cs@, end as int) == end);
        }
        i = i + 1;
    }
    proof {
        assert(ls.subrange(0, lines@.len() as int) =~= ls);
    }
    out
}

} // verus!
