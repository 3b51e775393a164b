//! The results of type checking: expressions and functions annotated with
//! their types, casts to insert, and the bounds that generic functions need.

use vstd::prelude::*;
use crate::ast::{Def, Expr, FnDef, Ty};
use crate::diag::Span;

verus! {

/// A span reduced to its byte offsets, used as a key.
#[derive(Debug, Clone, Copy, PartialEq, Eq, PartialOrd, Ord, Structural)]
pub struct SpanKey {
    pub start: usize,
    pub end: usize,
}

/// The key of a span: its byte offsets.
pub open spec fn span_key(sp: Span) -> SpanKey {
    SpanKey { start: sp.start.byte, end: sp.end.byte }
}

impl SpanKey {
    /// The byte offsets of `span`.
    pub fn new(span: &Span) -> (k: SpanKey)
        ensures
            k.start == span.start.byte,
            k.end == span.end.byte,
            k == span_key(*span),
    {
        SpanKey { start: span.start.byte, end: span.end.byte }
    }
}

/// A numeric cast to insert at `span`.
#[derive(Debug, Clone)]
pub struct CastHint {
    pub span: Span,
    pub target: Ty,
}

/// An expression with its type, the casts it needs, and the types of its
/// subexpressions by span.
#[derive(Debug)]
pub struct TypedExpr {
    pub expr: Expr,
    pub ty: Ty,
    pub casts: Vec<CastHint>,
    pub types: Vec<(SpanKey, Ty)>,
}

/// How a parameter is passed.
#[derive(Debug, Clone, Copy, PartialEq, Eq, Structural)]
pub enum ParamMode {
    ByVal,
    ByRef,
    ByRefNoAmp,
}

/// A trait bound that a generic parameter needs.
#[derive(Debug, Clone)]
pub enum GenericBound {
    Copy,
    Clone,
    Add,
    Sub,
    Mul,
    Div,
    PartialEq,
    PartialOrd,
    Len,
    IsEmpty,
    Push(Ty),
    FromInt,
    Debug,
}

/// A type-checked function.
#[derive(Debug)]
pub struct TypedFn {
    pub def: FnDef,
    pub param_tys: Vec<(String, Ty)>,
    pub param_modes: Vec<(String, ParamMode)>,
    pub generic_bounds: Vec<(u32, Vec<GenericBound>)>,
    pub body: TypedExpr,
    pub mutated: Vec<String>,
}

/// A type-checked top-level value.
#[derive(Debug)]
pub struct TypedDef {
    pub def: Def,
    pub body: TypedExpr,
}

} // verus!
