//! The reader: tokens to data (lists, vectors, maps, sets and atoms), with
//! quote shorthands expanded and `#_` discarding the next form.

use vstd::prelude::*;
use crate::datum::{Datum, datum_span};
use crate::diag::{Diag, DslResult, Span};
use crate::lexer::{Tok, TokKind};
use crate::text::{is_lit, string_chars};

verus! {

/// A reader over a token sequence.
pub struct Reader {
    toks: Vec<Tok>,
    pos: usize,
}

/// A closing `)`, `]` or `}`.
pub open spec fn is_closing(k: TokKind) -> bool {
    k is RParen || k is RBrack || k is RBrace
}

/// The datum an integer token reads as.
pub open spec fn int_datum(t: Tok) -> Datum {
    match t.kind {
        TokKind::Int(v) => Datum::Int(v, t.span),
        _ => Datum::Nil(t.span),
    }
}

/// Which closing token ends a bracketed form.
enum Close {
    Paren,
    Brack,
    Brace,
}

impl Reader {
    /// Whether the reader is in a consistent state.
    pub closed spec fn wf(&self) -> bool {
        self.pos <= self.toks@.len()
    }

    /// The tokens not read yet.
    pub closed spec fn remaining(&self) -> nat {
        (self.toks@.len() - self.pos) as nat
    }

    /// The tokens not read yet, in order.
    pub closed spec fn toks_left(&self) -> Seq<Tok> {
        self.toks@.skip(self.pos as int)
    }

    /// A reader at the start of `toks`.
    pub fn new(toks: Vec<Tok>) -> (r: Reader)
        ensures
            r.wf(),
            r.remaining() == toks@.len(),
            r.toks_left() == toks@,
    {
        proof {
            assert(toks@.skip(0) =~= toks@);
        }
        Reader { toks, pos: 0 }
    }

    /// Reads every remaining form in order; fails on the first malformed one.
    pub fn parse_all(&mut self) -> (r: DslResult<Vec<Datum>>)
        requires
            old(self).wf(),
        ensures
            final(self).wf(),
            r is Ok ==> final(self).remaining() == 0,
            r matches Ok(v) ==> v@.len() <= old(self).remaining(),
            old(self).remaining() == 0 ==> (r matches Ok(v) && v@.len() == 0),
            old(self).remaining() > 0 && is_closing(old(self).toks_left()[0].kind) ==> r is Err
                && r->Err_0.message@ == "unexpected closing delimiter"@ && r->Err_0.span == Some(old(self).toks_left()[0].span),
            (forall|k: int| 0 <= k < old(self).toks_left().len() ==> (#[trigger] old(self).toks_left()[k]).kind is Int)
                ==> (r matches Ok(v) && v@.len() == old(self).remaining()
                && forall|k: int| 0 <= k < v@.len() ==> #[trigger] v@[k] == int_datum(old(self).toks_left()[k])),
    {
        let mut out: Vec<Datum> = Vec::new();
        let ghost start = self.pos;
        let ghost all_int = forall|k: int| 0 <= k < old(self).toks_left().len() ==> (#[trigger] old(self).toks_left()[k]).kind is Int;
        let ghost closing_first = old(self).remaining() > 0 && is_closing(old(self).toks_left()[0].kind);
        while self.pos < self.toks.len()
            invariant
                self.wf(),
                self.toks == old(self).toks,
                start == old(self).pos,
                start <= self.pos,
                out@.len() <= self.pos - start,
                all_int == forall|k: int| 0 <= k < old(self).toks_left().len() ==> (#[trigger] old(self).toks_left()[k]).kind is Int,
                closing_first == (old(self).remaining() > 0 && is_closing(old(self).toks_left()[0].kind)),
                closing_first ==> self.pos == start,
                all_int ==> out@.len() == self.pos - start
                    && forall|k: int| 0 <= k < out@.len() ==> #[trigger] out@[k] == int_datum(old(self).toks_left()[k]),
            decreases self.toks@.len() - self.pos,
        {
            proof {
                assert(old(self).toks_left()[self.pos - start] == self.toks@[self.pos as int]);
            }
            let d = self.parse_one()?;
            out.push(d);
        }
        Ok(out)
    }

    fn span_at(&self, i: usize) -> (sp: Span)
        requires
            i < self.toks@.len(),
        ensures
            sp == self.toks@[i as int].span,
    {
        self.toks[i].span
    }

    /// Reads one form; on success at least one token is consumed.
    fn parse_one(&mut self) -> (r: DslResult<Datum>)
        requires
            old(self).wf(),
        ensures
            final(self).wf(),
            final(self).toks == old(self).toks,
            final(self).pos >= old(self).pos,
            r is Ok ==> final(self).pos > old(self).pos,
            old(self).pos >= old(self).toks@.len() ==> r is Err && r->Err_0.message@ == "unexpected end of input"@,
            old(self).pos < old(self).toks@.len() && is_closing(old(self).toks@[old(self).pos as int].kind) ==> r is Err
                && r->Err_0.message@ == "unexpected closing delimiter"@
                && r->Err_0.span == Some(old(self).toks@[old(self).pos as int].span),
            old(self).pos < old(self).toks@.len() && old(self).toks@[old(self).pos as int].kind is Int ==>
                r == Ok::<Datum, Diag>(int_datum(old(self).toks@[old(self).pos as int])) && final(self).pos == old(self).pos + 1,
        decreases old(self).toks@.len() - old(self).pos, 1nat,
    {
        let ghost start = self.pos;
        loop
            invariant
                self.wf(),
                self.toks == old(self).toks,
                self.pos >= start,
                start == old(self).pos,
                self.pos > start ==> self.toks@[start as int].kind is Discard,
            decreases self.toks@.len() - self.pos,
        {
            if self.pos >= self.toks.len() {
                return Err(Diag::new("unexpected end of input"));
            }
            let sp = self.span_at(self.pos);
            match &self.toks[self.pos].kind {
                TokKind::Discard => {
                    self.pos = self.pos + 1;
                    match self.parse_one() {
                        Ok(_) => {}
                        Err(_) => {
                            return Err(Diag::new("discard must be followed by a form").with_span(sp));
                        }
                    }
                    continue;
                }
                TokKind::Quote | TokKind::SyntaxQuote | TokKind::Unquote | TokKind::UnquoteSplicing => {
                    let head = match &self.toks[self.pos].kind {
                        TokKind::Quote => "quote",
                        TokKind::SyntaxQuote => "syntax-quote",
                        TokKind::Unquote => "unquote",
                        _ => "unquote-splicing",
                    };
                    self.pos = self.pos + 1;
                    let inner = self.parse_one()?;
                    let span = Span { start: sp.start, end: datum_span(&inner).end };
                    let quote_sym = Datum::Symbol(String::from_str(head), sp);
                    let mut items: Vec<Datum> = Vec::new();
                    items.push(quote_sym);
                    items.push(inner);
                    return Ok(Datum::List(items, span));
                }
                TokKind::Meta => {
                    self.pos = self.pos + 1;
                    let meta_form = self.parse_one()?;
                    let form = self.parse_one()?;
                    let span = Span { start: sp.start, end: datum_span(&form).end };
                    return Ok(Datum::Meta { meta: Box::new(meta_form), form: Box::new(form), span });
                }
                TokKind::LParen => {
                    let (items, span) = self.parse_seq(Close::Paren, "unclosed '('")?;
                    return Ok(Datum::List(items, span));
                }
                TokKind::LBrack => {
                    let (items, span) = self.parse_seq(Close::Brack, "unclosed '['")?;
                    return Ok(Datum::Vec(items, span));
                }
                TokKind::LBrace => {
                    let (items, span) = self.parse_seq(Close::Brace, "unclosed '{'")?;
                    if items.len() % 2 != 0 {
                        return Err(Diag::new("map literal requires even number of forms").with_span(span));
                    }
                    return Ok(Datum::MapForm(pair_up(items), span));
                }
                TokKind::LSet => {
                    let (items, span) = self.parse_seq(Close::Brace, "unclosed '#{'")?;
                    return Ok(Datum::SetForm(items, span));
                }
                TokKind::RParen | TokKind::RBrack | TokKind::RBrace => {
                    return Err(Diag::new("unexpected closing delimiter").with_span(sp));
                }
                TokKind::Sym(s) => {
                    let s = s.clone();
                    self.pos = self.pos + 1;
                    if is_lit(&s, "true") {
                        return Ok(Datum::Bool(true, sp));
                    }
                    if is_lit(&s, "false") {
                        return Ok(Datum::Bool(false, sp));
                    }
                    if is_lit(&s, "nil") {
                        return Ok(Datum::Nil(sp));
                    }
                    let cs = string_chars(&s);
                    if cs.len() > 0 && cs[0] == ':' {
                        return Ok(Datum::SymbolLit(s, sp));
                    }
                    return Ok(Datum::Symbol(s, sp));
                }
                TokKind::Str(s) => {
                    let s = s.clone();
                    self.pos = self.pos + 1;
                    return Ok(Datum::Str(s, sp));
                }
                TokKind::Int(v) => {
                    let v = *v;
                    self.pos = self.pos + 1;
                    return Ok(Datum::Int(v, sp));
                }
                TokKind::Float(v) => {
                    let v = v.clone();
                    self.pos = self.pos + 1;
                    return Ok(Datum::Float(v, sp));
                }
            }
        }
    }

    /// Reads the forms of a bracketed sequence whose opening token is at
    /// the cursor, up to the matching closing token.
    fn parse_seq(&mut self, close: Close, unclosed: &str) -> (r: DslResult<(Vec<Datum>, Span)>)
        requires
            old(self).wf(),
            old(self).pos < old(self).toks@.len(),
        ensures
            final(self).wf(),
            final(self).toks == old(self).toks,
            final(self).pos > old(self).pos,
        decreases old(self).toks@.len() - old(self).pos, 0nat,
    {
        let open = self.span_at(self.pos);
        let _n = self.toks.len();
        self.pos = self.pos + 1;
        let mut items: Vec<Datum> = Vec::new();
        while self.pos < self.toks.len()
            invariant
                self.wf(),
                self.toks == old(self).toks,
                self.pos > old(self).pos,
            decreases self.toks@.len() - self.pos,
        {
            let is_close = match (&self.toks[self.pos].kind, &close) {
                (TokKind::RParen, Close::Paren) => true,
                (TokKind::RBrack, Close::Brack) => true,
                (TokKind::RBrace, Close::Brace) => true,
                _ => false,
            };
            if is_close {
                let end = self.span_at(self.pos);
                self.pos = self.pos + 1;
                return Ok((items, Span { start: open.start, end: end.end }));
            }
            let d = self.parse_one()?;
            items.push(d);
        }
        Err(Diag::new(unclosed).with_span(open))
    }
}

/// Groups an even-length sequence of forms into key/value pairs.
fn pair_up(items: Vec<Datum>) -> (out: Vec<(Datum, Datum)>)
    requires
        items@.len() % 2 == 0,
    ensures
        out@.len() * 2 == items@.len(),
{
    let mut out: Vec<(Datum, Datum)> = Vec::new();
    let mut items = items;
    let ghost n = items@.len();
    let mut rev: Vec<Datum> = Vec::new();
    while items.len() > 0
        invariant
            rev@.len() + items@.len() == n,
        decreases items@.len(),
    {
        let d = items.pop().unwrap();
        rev.push(d);
    }
    while rev.len() >= 2
        invariant
            out@.len() * 2 + rev@.len() == n,
            n % 2 == 0,
        decreases rev@.len(),
    {
        let k = rev.pop().unwrap();
        let v = rev.pop().unwrap();
        out.push((k, v));
    }
    out
}

} // verus!
