//! S-expressions: the bracketed tree the AST parser reads.

use vstd::prelude::*;
use crate::diag::{Diag, DslResult, Span};
use crate::lexer::{Tok, TokKind};
use crate::syntax::se_span;

verus! {

/// An s-expression: an atom token, or a list in `()`, `[]`, `{}` or `#{}`.
#[derive(Debug)]
pub enum Sexp {
    Atom(TokKind, Span),
    List(Vec<Sexp>, Span),
    Brack(Vec<Sexp>, Span),
    Brace(Vec<Sexp>, Span),
    SetForm(Vec<Sexp>, Span),
}

/// Two token kinds are the same: same kind, same spelling or value.
pub open spec fn tok_same(a: TokKind, b: TokKind) -> bool {
    match (a, b) {
        (TokKind::Sym(x), TokKind::Sym(y)) => x@ == y@,
        (TokKind::Str(x), TokKind::Str(y)) => x@ == y@,
        (TokKind::Float(x), TokKind::Float(y)) => x@ == y@,
        _ => !(a is Sym || a is Str || a is Float) && a == b,
    }
}

/// Two s-expressions are the same tree: same shapes, spans and tokens.
pub open spec fn sexp_same(a: Sexp, b: Sexp) -> bool
    decreases a,
{
    match (a, b) {
        (Sexp::Atom(k1, s1), Sexp::Atom(k2, s2)) => s1 == s2 && tok_same(k1, k2),
        (Sexp::List(x, s1), Sexp::List(y, s2)) => s1 == s2 && x@.len() == y@.len()
            && forall|i: int| 0 <= i < x@.len() ==> sexp_same(#[trigger] x@[i], y@[i]),
        (Sexp::Brack(x, s1), Sexp::Brack(y, s2)) => s1 == s2 && x@.len() == y@.len()
            && forall|i: int| 0 <= i < x@.len() ==> sexp_same(#[trigger] x@[i], y@[i]),
        (Sexp::Brace(x, s1), Sexp::Brace(y, s2)) => s1 == s2 && x@.len() == y@.len()
            && forall|i: int| 0 <= i < x@.len() ==> sexp_same(#[trigger] x@[i], y@[i]),
        (Sexp::SetForm(x, s1), Sexp::SetForm(y, s2)) => s1 == s2 && x@.len() == y@.len()
            && forall|i: int| 0 <= i < x@.len() ==> sexp_same(#[trigger] x@[i], y@[i]),
        _ => false,
    }
}

/// A copy of a token kind.
pub fn clone_tok_kind(k: &TokKind) -> (r: TokKind)
    ensures
        tok_same(r, *k),
{
    match k {
        TokKind::LParen => TokKind::LParen,
        TokKind::RParen => TokKind::RParen,
        TokKind::LBrack => TokKind::LBrack,
        TokKind::RBrack => TokKind::RBrack,
        TokKind::LBrace => TokKind::LBrace,
        TokKind::RBrace => TokKind::RBrace,
        TokKind::LSet => TokKind::LSet,
        TokKind::Quote => TokKind::Quote,
        TokKind::SyntaxQuote => TokKind::SyntaxQuote,
        TokKind::Unquote => TokKind::Unquote,
        TokKind::UnquoteSplicing => TokKind::UnquoteSplicing,
        TokKind::Meta => TokKind::Meta,
        TokKind::Discard => TokKind::Discard,
        TokKind::Sym(s) => TokKind::Sym(s.clone()),
        TokKind::Str(s) => TokKind::Str(s.clone()),
        TokKind::Int(v) => TokKind::Int(*v),
        TokKind::Float(s) => TokKind::Float(s.clone()),
    }
}

fn clone_sexps(items: &Vec<Sexp>) -> (out: Vec<Sexp>)
    ensures
        out@.len() == items@.len(),
        forall|i: int| 0 <= i < items@.len() ==> sexp_same(#[trigger] out@[i], items@[i]),
    decreases items,
{
    let mut out: Vec<Sexp> = Vec::new();
    let mut i: usize = 0;
    while i < items.len()
        invariant
            i <= items@.len(),
            out@.len() == i,
            forall|j: int| 0 <= j < i ==> sexp_same(#[trigger] out@[j], items@[j]),
        decreases items@.len() - i,
    {
        out.push(clone_sexp(&items[i]));
        i = i + 1;
    }
    out
}

/// A copy of an s-expression tree.
pub fn clone_sexp(s: &Sexp) -> (r: Sexp)
    ensures
        sexp_same(r, *s),
    decreases s,
{
    match s {
        Sexp::Atom(k, sp) => Sexp::Atom(clone_tok_kind(k), *sp),
        Sexp::List(items, sp) => Sexp::List(clone_sexps(items), *sp),
        Sexp::Brack(items, sp) => Sexp::Brack(clone_sexps(items), *sp),
        Sexp::Brace(items, sp) => Sexp::Brace(clone_sexps(items), *sp),
        Sexp::SetForm(items, sp) => Sexp::SetForm(clone_sexps(items), *sp),
    }
}

impl Clone for Sexp {
    fn clone(&self) -> (r: Sexp) {
        clone_sexp(self)
    }
}

/// Which bracketed form a sequence builds.
enum Bracket {
    Paren,
    Brack,
    Brace,
    SetBrace,
}

/// A parser from tokens to s-expressions.
pub struct Parser {
    toks: Vec<Tok>,
    pos: usize,
}

impl Parser {
    /// Whether the cursor lies within the tokens.
    pub closed spec fn wf(&self) -> bool {
        self.pos <= self.toks@.len()
    }

    /// The number of tokens not consumed yet.
    pub closed spec fn remaining(&self) -> nat {
        (self.toks@.len() - self.pos) as nat
    }

    /// The tokens the parser was made with.
    pub closed spec fn tokens(&self) -> Seq<Tok> {
        self.toks@
    }

    /// A parser at the first of `toks`.
    pub fn new(toks: Vec<Tok>) -> (r: Parser)
        ensures
            r.wf(),
            r.remaining() == toks@.len(),
            r.tokens() == toks@,
    {
        Parser { toks, pos: 0 }
    }

    /// Parses every remaining form in order; fails on the first malformed one.
    /// On success every token has been consumed, and there are no more forms
    /// than tokens.
    pub fn parse_all(&mut self) -> (r: DslResult<Vec<Sexp>>)
        requires
            old(self).wf(),
        ensures
            final(self).wf(),
            final(self).tokens() == old(self).tokens(),
            r is Ok ==> final(self).remaining() == 0,
            r is Ok ==> r->Ok_0@.len() <= old(self).remaining(),
            old(self).remaining() == 0 ==> (r is Ok && r->Ok_0@.len() == 0),
    {
        let mut out: Vec<Sexp> = Vec::new();
        let ghost start = self.pos;
        while self.pos < self.toks.len()
            invariant
                self.wf(),
                self.toks == old(self).toks,
                start == old(self).pos,
                self.pos >= start,
                out@.len() <= self.pos - start,
            decreases self.toks@.len() - self.pos,
        {
            let d = self.parse_one()?;
            out.push(d);
        }
        Ok(out)
    }

    fn span_at(&self, i: usize) -> (sp: Span)
        requires
            i < self.toks@.len(),
        ensures
            sp == self.toks@[i as int].span,
    {
        self.toks[i].span
    }

    /// Parses one form; on success at least one token is consumed.
    fn parse_one(&mut self) -> (r: DslResult<Sexp>)
        requires
            old(self).wf(),
        ensures
            final(self).wf(),
            final(self).toks == old(self).toks,
            final(self).pos >= old(self).pos,
            r is Ok ==> final(self).pos > old(self).pos,
        decreases old(self).toks@.len() - old(self).pos, 1nat,
    {
        let ghost start = self.pos;
        loop
            invariant
                self.wf(),
                self.toks == old(self).toks,
                self.pos >= start,
                start == old(self).pos,
            decreases self.toks@.len() - self.pos,
        {
            if self.pos >= self.toks.len() {
                return Err(Diag::new("unexpected end of input"));
            }
            let sp = self.span_at(self.pos);
            match &self.toks[self.pos].kind {
                TokKind::Discard => {
                    self.pos = self.pos + 1;
                    match self.parse_one() {
                        Ok(_) => {}
                        Err(_) => {
                            return Err(Diag::new("discard must be followed by a form").with_span(sp));
                        }
                    }
                    continue;
                }
                TokKind::Quote | TokKind::SyntaxQuote | TokKind::Unquote | TokKind::UnquoteSplicing => {
                    let head = match &self.toks[self.pos].kind {
                        TokKind::Quote => "quote",
                        TokKind::SyntaxQuote => "syntax-quote",
                        TokKind::Unquote => "unquote",
                        _ => "unquote-splicing",
                    };
                    self.pos = self.pos + 1;
                    let inner = self.parse_one()?;
                    let span = Span { start: sp.start, end: se_span(&inner).end };
                    let quote_atom = Sexp::Atom(TokKind::Sym(String::from_str(head)), sp);
                    let mut items: Vec<Sexp> = Vec::new();
                    items.push(quote_atom);
                    items.push(inner);
                    return Ok(Sexp::List(items, span));
                }
                TokKind::Meta => {
                    self.pos = self.pos + 1;
                    let meta_form = self.parse_one()?;
                    let form = self.parse_one()?;
                    let span = Span { start: sp.start, end: se_span(&form).end };
                    let head = Sexp::Atom(TokKind::Sym(String::from_str("with-meta")), sp);
                    let mut items: Vec<Sexp> = Vec::new();
                    items.push(head);
                    items.push(form);
                    items.push(meta_form);
                    return Ok(Sexp::List(items, span));
                }
                TokKind::LParen => {
                    return self.parse_seq(Bracket::Paren, "unclosed '('");
                }
                TokKind::LBrack => {
                    return self.parse_seq(Bracket::Brack, "unclosed '['");
                }
                TokKind::LBrace => {
                    return self.parse_seq(Bracket::Brace, "unclosed '{'");
                }
                TokKind::LSet => {
                    return self.parse_seq(Bracket::SetBrace, "unclosed '#{'");
                }
                TokKind::RParen | TokKind::RBrack | TokKind::RBrace => {
                    return Err(Diag::new("unexpected closing delimiter").with_span(sp));
                }
                _ => {
                    let kind = self.toks[self.pos].kind.clone();
                    self.pos = self.pos + 1;
                    return Ok(Sexp::Atom(kind, sp));
                }
            }
        }
    }

    /// Parses the forms of a bracketed sequence whose opening token is at
    /// the cursor, up to the matching closing token.
    fn parse_seq(&mut self, which: Bracket, unclosed: &str) -> (r: DslResult<Sexp>)
        requires
            old(self).wf(),
            old(self).pos < old(self).toks@.len(),
        ensures
            final(self).wf(),
            final(self).toks == old(self).toks,
            final(self).pos > old(self).pos,
        decreases old(self).toks@.len() - old(self).pos, 0nat,
    {
        let open = self.span_at(self.pos);
        let _len = self.toks.len();
        self.pos = self.pos + 1;
        let mut items: Vec<Sexp> = Vec::new();
        while self.pos < self.toks.len()
            invariant
                self.wf(),
                self.toks == old(self).toks,
                self.pos > old(self).pos,
            decreases self.toks@.len() - self.pos,
        {
            let is_close = match (&self.toks[self.pos].kind, &which) {
                (TokKind::RParen, Bracket::Paren) => true,
                (TokKind::RBrack, Bracket::Brack) => true,
                (TokKind::RBrace, Bracket::Brace) => true,
                (TokKind::RBrace, Bracket::SetBrace) => true,
                _ => false,
            };
            if is_close {
                let close = self.span_at(self.pos);
                self.pos = self.pos + 1;
                let span = Span { start: open.start, end: close.end };
                return Ok(match which {
                    Bracket::Paren => Sexp::List(items, span),
                    Bracket::Brack => Sexp::Brack(items, span),
                    Bracket::Brace => Sexp::Brace(items, span),
                    Bracket::SetBrace => Sexp::SetForm(items, span),
                });
            }
            let d = self.parse_one()?;
            items.push(d);
        }
        Err(Diag::new(unclosed).with_span(open))
    }
}

} // verus!
