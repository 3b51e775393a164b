//! Source locations, diagnostics, and their rendering as text with a gutter
//! and a caret under the offending column.

use vstd::prelude::*;
use crate::text::{first_index, lemma_first_index, sub_chars, decimal, spaces, usize_to_string, chars_of, repeat_space, string_from_chars};

verus! {

/// A position in the source: 1-based line and column, 0-based byte offset.
#[derive(Debug, Clone, Copy, PartialEq, Eq)]
pub struct Loc {
    pub line: usize,
    pub col: usize,
    pub byte: usize,
}

/// A half-open source region.
#[derive(Debug, Clone, Copy, PartialEq, Eq)]
pub struct Span {
    pub start: Loc,
    pub end: Loc,
}

/// A diagnostic: a message and, optionally, where it applies.
#[derive(Debug, Clone)]
pub struct Diag {
    pub message: String,
    pub span: Option<Span>,
}

/// Result of a compiler stage.
pub type DslResult<T> = Result<T, Diag>;

impl Diag {
    /// A diagnostic with the given message and no location.
    pub fn new(msg: &str) -> (d: Diag)
        ensures
            d.message@ == msg@,
            d.span is None,
    {
        Diag { message: String::from_str(msg), span: None }
    }

    /// A diagnostic that owns the given message and has no location.
    pub fn from_message(message: String) -> (d: Diag)
        ensures
            d.message == message,
            d.span is None,
    {
        Diag { message, span: None }
    }

    /// The same diagnostic, located at `span`.
    pub fn with_span(self, span: Span) -> (d: Diag)
        ensures
            d.message == self.message,
            d.span == Some(span),
    {
        Diag { message: self.message, span: Some(span) }
    }
}

/// `s` without one trailing carriage return.
pub open spec fn strip_cr(s: Seq<char>) -> Seq<char> {
    if s.len() > 0 && s.last() == '\r' {
        s.drop_last()
    } else {
        s
    }
}

/// The `k`-th (0-based) line of `s`, as `str::lines` yields them: split at
/// `'\n'`, a `'\r'` right before the `'\n'` dropped, and no empty line after
/// a final newline.
pub open spec fn nth_line(s: Seq<char>, k: nat) -> Option<Seq<char>>
    decreases s.len(),
{
    if s.len() == 0 {
        None
    } else {
        match first_index(s, '\n') {
            None => if k == 0 { Some(s) } else { None },
            Some(i) => if k == 0 {
                Some(strip_cr(s.subrange(0, i)))
            } else {
                proof { lemma_first_index(s, '\n'); }
                nth_line(s.subrange(i + 1, s.len() as int), (k - 1) as nat)
            },
        }
    }
}

fn nth_line_from(s: &[char], start: usize, k: usize) -> (r: Option<Vec<char>>)
    requires
        start <= s@.len(),
    ensures
        r matches Some(v) ==> nth_line(s@.subrange(start as int, s@.len() as int), k as nat) == Some(v@),
        r is None ==> nth_line(s@.subrange(start as int, s@.len() as int), k as nat) is None,
    decreases s@.len() - start,
{
    let ghost rest = s@.subrange(start as int, s@.len() as int);
    if start == s.len() {
        return None;
    }
    let mut i: usize = start;
    while i < s.len() && s[i] != '\n'
        invariant
            start <= i <= s@.len(),
            forall|j: int| start <= j < i ==> s@[j] != '\n',
        decreases s@.len() - i,
    {
        i = i + 1;
    }
    if i == s.len() {
        proof {
            assert forall|j: int| 0 <= j < rest.len() implies rest[j] != '\n' by {
                assert(rest[j] == s@[start + j]);
            }
            lemma_first_index(rest, '\n');
        }
        if k == 0 {
            return Some(sub_chars(s, start, s.len()));
        }
        return None;
    }
    proof {
        let ii = (i - start) as int;
        assert(rest[ii] == '\n');
        lemma_first_index(rest, '\n');
        let w = first_index(rest, '\n').unwrap();
        if w < ii {
            assert(s@[start + w] == rest[w]);
        }
        if ii < w {
            assert(rest[ii] != '\n');
        }
        assert(w == ii);
        assert(rest.subrange(ii + 1, rest.len() as int) =~= s@.subrange(i + 1, s@.len() as int));
        assert(rest.subrange(0, ii) =~= s@.subrange(start as int, i as int));
    }
    if k == 0 {
        let mut piece = sub_chars(s, start, i);
        if piece.len() > 0 && piece[piece.len() - 1] == '\r' {
            piece.pop();
            assert(piece@ =~= strip_cr(s@.subrange(start as int, i as int)));
        }
        return Some(piece);
    }
    nth_line_from(s, i + 1, k - 1)
}

/// The header line of a rendered diagnostic.
pub open spec fn header(level: Seq<char>, message: Seq<char>) -> Seq<char> {
    level + ": "@ + message + "\n"@
}

/// The location line of a rendered diagnostic.
pub open spec fn location(file: Seq<char>, sp: Span) -> Seq<char> {
    " --> "@ + file + ":"@ + decimal(sp.start.line as nat) + ":"@ + decimal(sp.start.col as nat) + "\n"@
}

/// The source excerpt of a rendered diagnostic: the line number `num` in a
/// gutter, the source line, and a caret after `caret` spaces.
pub open spec fn excerpt(num: Seq<char>, text: Seq<char>, caret: nat) -> Seq<char> {
    let pad = spaces(num.len());
    " "@ + pad + " |\n "@ + num + " | "@ + text + "\n "@ + pad + " |"@
        + "\n "@ + pad + " | "@ + spaces(caret) + "^\n"@
}

/// The rendered form of a diagnostic at a given severity `level`.
pub open spec fn rendered(file: Seq<char>, src: Seq<char>, message: Seq<char>, span: Option<Span>, level: Seq<char>) -> Seq<char> {
    match span {
        None => header(level, message),
        Some(sp) => {
            let line_idx: nat = if sp.start.line == 0 { 0 } else { (sp.start.line - 1) as nat };
            match nth_line(src, line_idx) {
                None => header(level, message) + location(file, sp),
                Some(text) => {
                    let caret: nat = if sp.start.col == 0 { 0 } else { (sp.start.col - 1) as nat };
                    header(level, message) + location(file, sp) + excerpt(decimal(sp.start.line as nat), text, caret)
                }
            }
        }
    }
}

fn render_header(level: &str, message: &String) -> (s: String)
    ensures
        s@ == header(level@, message@),
{
    let mut s = String::from_str(level);
    s.append(": ");
    s.append(message.as_str());
    s.append("\n");
    proof { reveal_strlit(": "); reveal_strlit("\n"); }
    s
}

fn render_location(file: &str, sp: Span) -> (s: String)
    ensures
        s@ == location(file@, sp),
{
    let line_s = usize_to_string(sp.start.line);
    let col_s = usize_to_string(sp.start.col);
    let mut s = String::from_str(" --> ");
    s.append(file);
    s.append(":");
    s.append(line_s.as_str());
    s.append(":");
    s.append(col_s.as_str());
    s.append("\n");
    s
}

fn render_excerpt(line: usize, text: &[char], caret: usize) -> (s: String)
    ensures
        s@ == excerpt(decimal(line as nat), text@, caret as nat),
{
    let line_s = usize_to_string(line);
    let pad = repeat_space(line_s.as_str().unicode_len());
    let text_s = string_from_chars(text);
    let caret_s = repeat_space(caret);
    let mut s = String::from_str(" ");
    s.append(pad.as_str());
    s.append(" |\n ");
    s.append(line_s.as_str());
    s.append(" | ");
    s.append(text_s.as_str());
    s.append("\n ");
    s.append(pad.as_str());
    s.append(" |");
    s.append("\n ");
    s.append(pad.as_str());
    s.append(" | ");
    s.append(caret_s.as_str());
    s.append("^\n");
    s
}

/// Renders `d` as an error.
pub fn render_diag(file: &str, src: &str, d: &Diag) -> (s: String)
    ensures
        s@ == rendered(file@, src@, d.message@, d.span, "error"@),
{
    render_diag_with_level(file, src, d, "error")
}

/// Renders `d` at severity `level`: a header line, then (when it has a span)
/// the location and, when that line exists in `src`, the line with a caret.
pub fn render_diag_with_level(file: &str, src: &str, d: &Diag, level: &str) -> (s: String)
    ensures
        s@ == rendered(file@, src@, d.message@, d.span, level@),
{
    let mut s = render_header(level, &d.message);
    match d.span {
        None => s,
        Some(sp) => {
            let loc = render_location(file, sp);
            s.append(loc.as_str());
            let src_chars = chars_of(src);
            let idx: usize = if sp.start.line == 0 { 0 } else { sp.start.line - 1 };
            proof { assert(src_chars@.subrange(0, src_chars@.len() as int) =~= src@); }
            match nth_line_from(src_chars.as_slice(), 0, idx) {
                None => s,
                Some(text) => {
                    let caret: usize = if sp.start.col == 0 { 0 } else { sp.start.col - 1 };
                    let ex = render_excerpt(sp.start.line, text.as_slice(), caret);
                    s.append(ex.as_str());
                    s
                }
            }
        }
    }
}

} // verus!
