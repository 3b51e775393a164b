//! Macro expansion: `defmacro` definitions, a small evaluator for macro
//! bodies (quote, syntax-quote with unquote and splicing, list functions),
//! and expansion of macro calls throughout the program.

use vstd::prelude::*;
use crate::datum::{Datum, datum_span, clone_datum};
use crate::diag::{Diag, DslResult, Span};
use crate::lexer::lex;
use crate::reader::Reader;
use crate::text::{is_lit, concat3, string_chars, sub_string, usize_to_string, concat2};

verus! {

/// The deepest nesting of macro expansion accepted.
pub const MAX_MACRO_DEPTH: usize = 256;

/// The measure that bounds the nesting of macro-body evaluation. No
/// evaluation that the call stack can hold comes near it, so in effect
/// evaluation is not bounded.
pub const MACRO_EVAL_FUEL: usize = 4294967295;

struct MacroDef {
    params: Vec<String>,
    body: Datum,
}

struct MacroEnv {
    defs: Vec<(String, MacroDef)>,
}

impl MacroEnv {
    fn find(&self, name: &String) -> (r: Option<usize>)
        ensures
            r matches Some(i) ==> i < self.defs@.len() && self.defs@[i as int].0@ == name@,
    {
        let mut i: usize = 0;
        while i < self.defs.len()
            invariant
                i <= self.defs@.len(),
            decreases self.defs@.len() - i,
        {
            if self.defs[i].0 == *name {
                return Some(i);
            }
            i = i + 1;
        }
        None
    }

    /// Defines or redefines a macro.
    fn insert(&mut self, name: String, def: MacroDef) {
        match self.find(&name) {
            Some(i) => {
                self.defs.set(i, (name, def));
            }
            None => {
                self.defs.push((name, def));
            }
        }
    }
}

fn prelude_source() -> &'static str {
    "
(defmacro defextern [name params ret rust-name]
  `(extern ~rust-name (defn ~name ~params ~ret)))

(defmacro defextern-record [name rust-name fields]
  `(extern ~rust-name (defrecord ~name ~@fields)))

(defmacro defextern-enum [name rust-name variants]
  `(extern ~rust-name (defenum ~name ~@variants)))
"
}

/// Expands every macro call in `forms`. `defmacro` forms define macros for
/// the forms after them and are dropped from the output; the prelude macros
/// `defextern`, `defextern-record` and `defextern-enum` are always defined.
pub fn expand_program(forms: &[Datum]) -> (r: DslResult<Vec<Datum>>)
    ensures
        r matches Ok(out) ==> out@.len() == kept_count(forms@),
        r matches Ok(out) ==> ((forall|k: int| 0 <= k < forms@.len() ==> !is_defmacro(#[trigger] forms@[k]))
            ==> forall|k: int| 0 <= k < forms@.len() && is_atom_datum(#[trigger] forms@[k])
            ==> crate::datum::datum_same(out@[k], forms@[k])),
{
    let mut env = MacroEnv { defs: Vec::new() };
    load_prelude_macros(&mut env)?;
    let mut gensym: usize = 0;
    let mut out: Vec<Datum> = Vec::new();
    let mut i: usize = 0;
    proof {
        assert(forms@.take(0) =~= Seq::<Datum>::empty());
    }
    while i < forms.len()
        invariant
            i <= forms@.len(),
            out@.len() == kept_count(forms@.take(i as int)),
            (forall|k: int| 0 <= k < forms@.len() ==> !is_defmacro(#[trigger] forms@[k])) ==> out@.len() == i
                && forall|k: int| 0 <= k < i && is_atom_datum(#[trigger] forms@[k])
                ==> crate::datum::datum_same(out@[k], forms@[k]),
        decreases forms@.len() - i,
    {
        proof {
            assert(forms@.take(i + 1).drop_last() =~= forms@.take(i as int));
            assert(forms@.take(i + 1).last() == forms@[i as int]);
        }
        match parse_defmacro(&forms[i])? {
            Some((name, def)) => {
                env.insert(name, def);
            }
            None => {
                let expanded = expand_form(&env, &forms[i], 0, &mut gensym)?;
                out.push(expanded);
            }
        }
        i = i + 1;
    }
    proof {
        assert(forms@.take(forms@.len() as int) =~= forms@);
    }
    Ok(out)
}

/// The number of forms that are not `defmacro` definitions.
pub open spec fn kept_count(forms: Seq<Datum>) -> nat
    decreases forms.len(),
{
    if forms.len() == 0 {
        0
    } else {
        kept_count(forms.drop_last()) + if is_defmacro(forms.last()) { 0nat } else { 1nat }
    }
}

/// A datum with no parts: a symbol, keyword, string, number, boolean or nil.
pub open spec fn is_atom_datum(d: Datum) -> bool {
    ||| d is Symbol
    ||| d is SymbolLit
    ||| d is Str
    ||| d is Int
    ||| d is Float
    ||| d is Bool
    ||| d is Nil
}

fn load_prelude_macros(env: &mut MacroEnv) -> DslResult<()> {
    let toks = lex(prelude_source())?;
    let mut reader = Reader::new(toks);
    let forms = reader.parse_all()?;
    let mut i: usize = 0;
    while i < forms.len()
        invariant
            i <= forms@.len(),
        decreases forms@.len() - i,
    {
        match parse_defmacro(&forms[i])? {
            Some((name, def)) => env.insert(name, def),
            None => {
                return Err(Diag::new("invalid macro prelude form").with_span(datum_span(&forms[i])));
            }
        }
        i = i + 1;
    }
    Ok(())
}

/// `d` is a list headed by the symbol `defmacro`.
pub open spec fn is_defmacro(d: Datum) -> bool {
    &&& d is List
    &&& d->List_0@.len() > 0
    &&& d->List_0@[0] is Symbol
    &&& d->List_0@[0]->Symbol_0@ == "defmacro"@
}

fn parse_defmacro(form: &Datum) -> (r: DslResult<Option<(String, MacroDef)>>)
    ensures
        !is_defmacro(*form) ==> r matches Ok(None),
        is_defmacro(*form) && form->List_0@.len() != 4 ==> r is Err
            && r->Err_0.message@ == "defmacro form is (defmacro name [params] body)"@,
        is_defmacro(*form) && form->List_0@.len() == 4 ==> {
            let items = form->List_0@;
            &&& !(items[1] is Symbol) ==> r is Err && r->Err_0.message@ == "defmacro name must be a symbol"@
            &&& items[1] is Symbol && !(items[2] is Vec) ==> r is Err
                && r->Err_0.message@ == "defmacro params must be a vector"@
            &&& items[1] is Symbol && items[2] is Vec ==> {
                &&& (r is Ok <==> forall|j: int| 0 <= j < items[2]->Vec_0@.len() ==> (#[trigger] items[2]->Vec_0@[j]) is Symbol)
                &&& r matches Ok(o) ==> (o matches Some((name, def)) && name@ == items[1]->Symbol_0@
                    && def.params@.len() == items[2]->Vec_0@.len()
                    && (forall|j: int| 0 <= j < def.params@.len() ==> (#[trigger] def.params@[j])@ == items[2]->Vec_0@[j]->Symbol_0@)
                    && crate::datum::datum_same(def.body, items[3]))
            }
        },
{
    let (items, span) = match form {
        Datum::List(items, sp) => (items, *sp),
        _ => return Ok(None),
    };
    if items.len() == 0 {
        return Ok(None);
    }
    match &items[0] {
        Datum::Symbol(s, _) => {
            if !is_lit(s, "defmacro") {
                return Ok(None);
            }
        }
        _ => return Ok(None),
    }
    if items.len() != 4 {
        return Err(Diag::new("defmacro form is (defmacro name [params] body)").with_span(span));
    }
    let name = match &items[1] {
        Datum::Symbol(s, _) => s.clone(),
        _ => return Err(Diag::new("defmacro name must be a symbol").with_span(datum_span(&items[1]))),
    };
    let params = match &items[2] {
        Datum::Vec(p, _) => parse_param_names(p)?,
        _ => return Err(Diag::new("defmacro params must be a vector").with_span(datum_span(&items[2]))),
    };
    let body = clone_datum(&items[3]);
    Ok(Some((name, MacroDef { params, body })))
}

fn parse_param_names(items: &Vec<Datum>) -> (r: DslResult<Vec<String>>)
    ensures
        r is Ok <==> forall|j: int| 0 <= j < items@.len() ==> (#[trigger] items@[j]) is Symbol,
        r matches Ok(v) ==> v@.len() == items@.len()
            && forall|j: int| 0 <= j < items@.len() ==> (#[trigger] v@[j])@ == items@[j]->Symbol_0@,
        r matches Err(e) ==> e.message@ == "macro params must be symbols"@,
{
    let mut out: Vec<String> = Vec::new();
    let mut i: usize = 0;
    while i < items.len()
        invariant
            i <= items@.len(),
            out@.len() == i,
            forall|j: int| 0 <= j < i ==> (#[trigger] items@[j]) is Symbol && out@[j]@ == items@[j]->Symbol_0@,
        decreases items@.len() - i,
    {
        match &items[i] {
            Datum::Symbol(s, _) => out.push(s.clone()),
            _ => return Err(Diag::new("macro params must be symbols").with_span(datum_span(&items[i]))),
        }
        i = i + 1;
    }
    Ok(out)
}

fn expand_all(env: &MacroEnv, items: &Vec<Datum>, depth: usize, gensym: &mut usize) -> (r: DslResult<Vec<Datum>>)
    requires
        depth <= MAX_MACRO_DEPTH + 1,
    ensures
        r matches Ok(out) ==> out@.len() == items@.len(),
    decreases MAX_MACRO_DEPTH + 2 - depth, 0nat,
{
    let mut out: Vec<Datum> = Vec::new();
    let mut i: usize = 0;
    while i < items.len()
        invariant
            i <= items@.len(),
            out@.len() == i,
            depth <= MAX_MACRO_DEPTH + 1,
        decreases items@.len() - i,
    {
        let d = expand_form(env, &items[i], depth, gensym)?;
        out.push(d);
        i = i + 1;
    }
    Ok(out)
}

/// Expands `form`, where `depth` counts enclosing expansions and forms.
fn expand_form(env: &MacroEnv, form: &Datum, depth: usize, gensym: &mut usize) -> (r: DslResult<Datum>)
    ensures
        depth > MAX_MACRO_DEPTH ==> r is Err && r->Err_0.message@ == "macro expansion limit exceeded"@,
        depth <= MAX_MACRO_DEPTH && is_atom_datum(*form) ==> (r matches Ok(d) && crate::datum::datum_same(d, *form)),
        depth <= MAX_MACRO_DEPTH && form is Vec ==> (r matches Ok(d) ==> (d matches Datum::Vec(o, sp)
            && sp == form->Vec_1 && o@.len() == form->Vec_0@.len())),
        depth <= MAX_MACRO_DEPTH && form is SetForm ==> (r matches Ok(d) ==> (d matches Datum::SetForm(o, sp)
            && sp == form->SetForm_1 && o@.len() == form->SetForm_0@.len())),
    decreases MAX_MACRO_DEPTH + 1 - depth, 1nat,
{
    if depth > MAX_MACRO_DEPTH {
        return Err(Diag::new("macro expansion limit exceeded").with_span(datum_span(form)));
    }
    match form {
        Datum::List(items, sp) => {
            if items.len() == 0 {
                return Ok(clone_datum(form));
            }
            if let Datum::Symbol(name, _) = &items[0] {
                if let Some(idx) = env.find(name) {
                    let mut args: Vec<Datum> = Vec::new();
                    let mut k: usize = 1;
                    while k < items.len()
                        invariant
                            1 <= k <= items@.len(),
                        decreases items@.len() - k,
                    {
                        args.push(clone_datum(&items[k]));
                        k = k + 1;
                    }
                    let expanded = eval_macro(&env.defs[idx].1, &args, gensym)?;
                    return expand_form(env, &expanded, depth + 1, gensym);
                }
            }
            let out = expand_all(env, items, depth + 1, gensym)?;
            Ok(Datum::List(out, *sp))
        }
        Datum::Meta { meta, form: inner, span } => {
            let meta = expand_form(env, meta, depth + 1, gensym)?;
            let inner = expand_form(env, inner, depth + 1, gensym)?;
            Ok(Datum::Meta { meta: Box::new(meta), form: Box::new(inner), span: *span })
        }
        Datum::Vec(items, sp) => {
            let out = expand_all(env, items, depth + 1, gensym)?;
            Ok(Datum::Vec(out, *sp))
        }
        Datum::MapForm(entries, sp) => {
            let mut out: Vec<(Datum, Datum)> = Vec::new();
            let mut i: usize = 0;
            while i < entries.len()
                invariant
                    i <= entries@.len(),
                    depth <= MAX_MACRO_DEPTH,
                    form is MapForm,
                decreases entries@.len() - i,
            {
                let k = expand_form(env, &entries[i].0, depth + 1, gensym)?;
                let v = expand_form(env, &entries[i].1, depth + 1, gensym)?;
                out.push((k, v));
                i = i + 1;
            }
            Ok(Datum::MapForm(out, *sp))
        }
        Datum::SetForm(items, sp) => {
            let out = expand_all(env, items, depth + 1, gensym)?;
            Ok(Datum::SetForm(out, *sp))
        }
        _ => Ok(clone_datum(form)),
    }
}

fn eval_macro(def: &MacroDef, args: &Vec<Datum>, gensym: &mut usize) -> DslResult<Datum> {
    let mut env = EvalEnv { vars: Vec::new() };
    bind_params(&mut env, &def.params, args, datum_span(&def.body))?;
    eval(&def.body, &mut env, MACRO_EVAL_FUEL, gensym)
}

/// The value bound to `name` among `vars`: the first binding of it.
pub open spec fn lookup_var(vars: Seq<(String, Datum)>, name: Seq<char>) -> Option<Datum>
    decreases vars.len(),
{
    if vars.len() == 0 {
        None
    } else if vars[0].0@ == name {
        Some(vars[0].1)
    } else {
        lookup_var(vars.drop_first(), name)
    }
}

/// The value a macro-body form has without any work: a bound variable's
/// value, or the form a `(quote x)` quotes.
pub open spec fn known_value(form: Datum, vars: Seq<(String, Datum)>) -> Option<Datum> {
    match form {
        Datum::Symbol(n, _) => lookup_var(vars, n@),
        Datum::List(items, _) => if items@.len() == 2 && items@[0] is Symbol && items@[0]->Symbol_0@ == "quote"@ {
            Some(items@[1])
        } else {
            None
        },
        _ => None,
    }
}

/// What `(rest x)` gives for the value `v` of `x`: for a list or vector, a
/// list (at `sp`) of its items after the first, in order; for anything
/// else, an error.
pub open spec fn rest_result(v: Datum, sp: Span, r: DslResult<Datum>) -> bool {
    match v {
        Datum::List(xs, _) => rest_items(xs@, sp, r),
        Datum::Vec(xs, _) => rest_items(xs@, sp, r),
        _ => r is Err && r->Err_0.message@ == "rest expects list or vector"@,
    }
}

/// `r` is a list at `sp` of the items of `xs` after its first.
pub open spec fn rest_items(xs: Seq<Datum>, sp: Span, r: DslResult<Datum>) -> bool {
    r matches Ok(Datum::List(out, osp)) && osp == sp
        && out@.len() == (if xs.len() > 0 { xs.len() - 1 } else { 0 })
        && forall|k: int| 0 <= k < out@.len() ==> crate::datum::datum_same(#[trigger] out@[k], xs[k + 1])
}

/// What `(if c t e)` gives when `c`'s value is `c`: a true `c` picks the
/// `then` form and a false one the `else` form (`nil` at `sp` without
/// one), whose value, where it is known, is the result.
pub open spec fn if_result(c: Datum, items: Seq<Datum>, vars: Seq<(String, Datum)>, sp: Span, r: DslResult<Datum>) -> bool {
    if truthy(c) {
        known_value(items[2], vars) matches Some(t) ==> (r matches Ok(d) && crate::datum::datum_same(d, t))
    } else if items.len() == 4 {
        known_value(items[3], vars) matches Some(e) ==> (r matches Ok(d) && crate::datum::datum_same(d, e))
    } else {
        r == Ok::<Datum, Diag>(Datum::Nil(sp))
    }
}

proof fn lemma_same_truthy(a: Datum, b: Datum)
    requires
        crate::datum::datum_same(a, b),
    ensures
        truthy(a) == truthy(b),
{
}

/// What `(first x)` gives for the value `v` of `x`: the first item of a
/// non-empty list or vector, `nil` (at `sp`) for an empty one, and an
/// error for anything else.
pub open spec fn first_result(v: Datum, sp: Span, r: DslResult<Datum>) -> bool {
    match v {
        Datum::List(xs, _) => first_item(xs@, sp, r),
        Datum::Vec(xs, _) => first_item(xs@, sp, r),
        _ => r is Err && r->Err_0.message@ == "first expects list or vector"@,
    }
}

/// `r` is the first of `xs`, or `nil` at `sp` when there is none.
pub open spec fn first_item(xs: Seq<Datum>, sp: Span, r: DslResult<Datum>) -> bool {
    if xs.len() == 0 {
        r == Ok::<Datum, Diag>(Datum::Nil(sp))
    } else {
        r matches Ok(d) && crate::datum::datum_same(d, xs[0])
    }
}

/// What `(cons x y)` gives for the values `x` and `v` of its operands: for
/// a list or vector `v`, a list (at `sp`) of `x` followed by `v`'s items;
/// for anything else, an error.
pub open spec fn cons_result(x: Datum, v: Datum, sp: Span, r: DslResult<Datum>) -> bool {
    match v {
        Datum::List(xs, _) => cons_items(x, xs@, sp, r),
        Datum::Vec(xs, _) => cons_items(x, xs@, sp, r),
        _ => r is Err && r->Err_0.message@ == "cons expects list or vector"@,
    }
}

/// `r` is a list at `sp` of `x` followed by the items of `xs`.
pub open spec fn cons_items(x: Datum, xs: Seq<Datum>, sp: Span, r: DslResult<Datum>) -> bool {
    r matches Ok(Datum::List(out, osp)) && osp == sp && out@.len() == xs.len() + 1
        && crate::datum::datum_same(out@[0], x)
        && forall|k: int| 0 <= k < xs.len() ==> crate::datum::datum_same(#[trigger] out@[k + 1], xs[k])
}

/// Variables bound while a macro body is evaluated.
struct EvalEnv {
    vars: Vec<(String, Datum)>,
}

impl EvalEnv {
    fn with_parent(parent: &EvalEnv) -> (r: EvalEnv)
        ensures
            r.vars@.len() == parent.vars@.len(),
            forall|i: int| 0 <= i < parent.vars@.len() ==> (#[trigger] r.vars@[i]).0@ == parent.vars@[i].0@
                && crate::datum::datum_same(r.vars@[i].1, parent.vars@[i].1),
    {
        let mut vars: Vec<(String, Datum)> = Vec::new();
        let mut i: usize = 0;
        while i < parent.vars.len()
            invariant
                i <= parent.vars@.len(),
                vars@.len() == i,
                forall|j: int| 0 <= j < i ==> (#[trigger] vars@[j]).0@ == parent.vars@[j].0@
                    && crate::datum::datum_same(vars@[j].1, parent.vars@[j].1),
            decreases parent.vars@.len() - i,
        {
            vars.push((parent.vars[i].0.clone(), clone_datum(&parent.vars[i].1)));
            i = i + 1;
        }
        EvalEnv { vars }
    }

    fn get(&self, name: &String) -> (r: Option<Datum>)
        ensures
            match lookup_var(self.vars@, name@) {
                Some(v) => r matches Some(d) && crate::datum::datum_same(d, v),
                None => r is None,
            },
    {
        let mut i: usize = 0;
        proof {
            assert(self.vars@.skip(0) =~= self.vars@);
        }
        while i < self.vars.len()
            invariant
                i <= self.vars@.len(),
                lookup_var(self.vars@, name@) == lookup_var(self.vars@.skip(i as int), name@),
            decreases self.vars@.len() - i,
        {
            let ghost rest = self.vars@.skip(i as int);
            proof {
                assert(rest[0] == self.vars@[i as int]);
                assert(rest.drop_first() =~= self.vars@.skip(i + 1));
            }
            if self.vars[i].0 == *name {
                return Some(clone_datum(&self.vars[i].1));
            }
            i = i + 1;
        }
        None
    }

    fn set(&mut self, name: &String, val: Datum)
        ensures
            crate::ownership::keyed_set(old(self).vars@, final(self).vars@, name@, val),
    {
        let ghost v0 = val;
        let mut i: usize = 0;
        while i < self.vars.len()
            invariant
                i <= self.vars@.len(),
                self.vars@ == old(self).vars@,
                val == v0,
                forall|j: int| 0 <= j < i ==> (#[trigger] self.vars@[j]).0@ != name@,
            decreases self.vars@.len() - i,
        {
            if self.vars[i].0 == *name {
                self.vars.set(i, (name.clone(), val));
                assert(old(self).vars@[i as int].0@ == name@);
                return;
            }
            i = i + 1;
        }
        self.vars.push((name.clone(), val));
        assert(self.vars@.drop_last() =~= old(self).vars@);
    }
}

fn bind_params(env: &mut EvalEnv, params: &Vec<String>, args: &Vec<Datum>, span: Span) -> (r: DslResult<()>)
    ensures
        (forall|j: int| 0 <= j < params@.len() ==> (#[trigger] params@[j])@ != "&"@) ==> (r is Ok <==> params@.len() == args@.len()),
        r matches Err(e) ==> e.message@ == "macro arity mismatch"@ || e.message@ == "macro rest params must be '& name'"@,
{
    let mut idx: usize = 0;
    let mut pi: usize = 0;
    while pi < params.len()
        invariant
            pi <= params@.len(),
            idx == pi,
            pi <= args@.len(),
        decreases params@.len() - pi,
    {
        if is_lit(&params[pi], "&") {
            if pi + 1 >= params.len() {
                return Err(Diag::new("macro rest params must be '& name'").with_span(span));
            }
            let mut rest: Vec<Datum> = Vec::new();
            let mut k = idx;
            while k < args.len()
                invariant
                    idx <= k,
                decreases args@.len() - k,
            {
                rest.push(clone_datum(&args[k]));
                k = k + 1;
            }
            env.set(&params[pi + 1], Datum::List(rest, span));
            return Ok(());
        }
        if idx >= args.len() {
            return Err(Diag::new("macro arity mismatch").with_span(span));
        }
        env.set(&params[pi], clone_datum(&args[idx]));
        idx = idx + 1;
        pi = pi + 1;
    }
    if idx != args.len() {
        return Err(Diag::new("macro arity mismatch").with_span(span));
    }
    Ok(())
}

fn eval_all(items: &Vec<Datum>, from: usize, env: &mut EvalEnv, fuel: usize, gensym: &mut usize) -> (r: DslResult<Vec<Datum>>)
    requires
        fuel > 0,
    ensures
        r matches Ok(v) ==> v@.len() == (if from <= items@.len() { items@.len() - from } else { 0int }),
        fuel == 1 && from < items@.len() ==> r is Err && r->Err_0.message@ == "macro evaluation limit exceeded"@,
    decreases fuel, 0nat,
{
    let mut out: Vec<Datum> = Vec::new();
    let mut i: usize = from;
    while i < items.len()
        invariant
            fuel > 0,
            from <= i,
            out@.len() == i - from,
            from <= items@.len() ==> i <= items@.len(),
            from > items@.len() ==> i == from,
            fuel == 1 ==> i == from,
        decreases items@.len() - i,
    {
        let d = eval(&items[i], env, fuel - 1, gensym)?;
        out.push(d);
        i = i + 1;
    }
    Ok(out)
}

/// Evaluates a macro-body form; `fuel` bounds the nesting of evaluation.
fn eval(form: &Datum, env: &mut EvalEnv, fuel: usize, gensym: &mut usize) -> (r: DslResult<Datum>)
    ensures
        fuel == 0 ==> r is Err && r->Err_0.message@ == "macro evaluation limit exceeded"@,
        fuel > 1 ==> match known_value(*form, old(env).vars@) {
            Some(v) => r matches Ok(d) && crate::datum::datum_same(d, v) && final(env).vars@ == old(env).vars@,
            None => true,
        },
    decreases fuel, 2nat,
{
    if fuel == 0 {
        return Err(Diag::new("macro evaluation limit exceeded").with_span(datum_span(form)));
    }
    match form {
        Datum::Symbol(name, sp) => match env.get(name) {
            Some(v) => Ok(v),
            None => Err(Diag::from_message(concat3("unknown symbol '", name.as_str(), "' in macro")).with_span(*sp)),
        },
        Datum::List(items, sp) => eval_list(items, *sp, env, fuel - 1, gensym),
        Datum::Meta { meta, form: inner, span } => {
            let meta = eval(meta, env, fuel - 1, gensym)?;
            let inner = eval(inner, env, fuel - 1, gensym)?;
            Ok(Datum::Meta { meta: Box::new(meta), form: Box::new(inner), span: *span })
        }
        Datum::Vec(items, sp) => {
            let out = eval_all(items, 0, env, fuel, gensym)?;
            Ok(Datum::Vec(out, *sp))
        }
        Datum::MapForm(entries, sp) => {
            let mut out: Vec<(Datum, Datum)> = Vec::new();
            let mut i: usize = 0;
            while i < entries.len()
                invariant
                    fuel > 0,
                    form is MapForm,
                decreases entries@.len() - i,
            {
                let k = eval(&entries[i].0, env, fuel - 1, gensym)?;
                let v = eval(&entries[i].1, env, fuel - 1, gensym)?;
                out.push((k, v));
                i = i + 1;
            }
            Ok(Datum::MapForm(out, *sp))
        }
        Datum::SetForm(items, sp) => {
            let out = eval_all(items, 0, env, fuel, gensym)?;
            Ok(Datum::SetForm(out, *sp))
        }
        _ => Ok(clone_datum(form)),
    }
}

/// The elements of a list or vector value.
fn seq_items(d: Datum) -> (r: Option<Vec<Datum>>)
    ensures
        match d {
            Datum::List(xs, _) => r == Some(xs),
            Datum::Vec(xs, _) => r == Some(xs),
            _ => r is None,
        },
{
    match d {
        Datum::List(items, _) => Some(items),
        Datum::Vec(items, _) => Some(items),
        _ => None,
    }
}

/// A value counts as true unless it is `false` or `nil`.
pub open spec fn truthy(v: Datum) -> bool {
    match v {
        Datum::Bool(b, _) => b,
        Datum::Nil(_) => false,
        _ => true,
    }
}

fn is_truthy(v: &Datum) -> (b: bool)
    ensures
        b == truthy(*v),
{
    match v {
        Datum::Bool(b, _) => *b,
        Datum::Nil(_) => false,
        _ => true,
    }
}

/// The macro functions a body may call.
pub open spec fn is_macro_fn(h: Seq<char>) -> bool {
    ||| h == "quote"@
    ||| h == "syntax-quote"@
    ||| h == "if"@
    ||| h == "do"@
    ||| h == "let"@
    ||| h == "list"@
    ||| h == "list*"@
    ||| h == "vec"@
    ||| h == "hash-map"@
    ||| h == "hash-set"@
    ||| h == "apply"@
    ||| h == "map"@
    ||| h == "reduce"@
    ||| h == "gensym"@
    ||| h == "cons"@
    ||| h == "concat"@
    ||| h == "first"@
    ||| h == "rest"@
    ||| h == "nth"@
    ||| h == "count"@
    ||| h == "symbol"@
    ||| h == "keyword"@
}

/// The message with which a macro function headed `head` refuses a call of
/// `n` items, the head included; `None` where the count is right.
pub open spec fn macro_arity_error(head: Seq<char>, n: int) -> Option<Seq<char>> {
    if head == "quote"@ && n != 2 {
        Some("quote form is (quote x)"@)
    } else if head == "syntax-quote"@ && n != 2 {
        Some("syntax-quote form is (syntax-quote x)"@)
    } else if head == "if"@ && (n < 3 || n > 4) {
        Some("if form is (if cond then [else])"@)
    } else if head == "let"@ && n != 3 {
        Some("let form is (let [bindings] body)"@)
    } else if head == "list*"@ && n < 2 {
        Some("list* expects at least 1 argument"@)
    } else if head == "hash-map"@ && (n - 1) % 2 != 0 {
        Some("hash-map expects even number of forms"@)
    } else if head == "apply"@ && n < 3 {
        Some("apply expects function and args"@)
    } else if head == "map"@ && n != 3 {
        Some("map expects function and collection"@)
    } else if head == "reduce"@ && (n < 3 || n > 4) {
        Some("reduce expects (reduce f coll) or (reduce f init coll)"@)
    } else if head == "gensym"@ && n > 2 {
        Some("gensym expects 0 or 1 argument"@)
    } else if head == "cons"@ && n != 3 {
        Some("cons expects 2 arguments"@)
    } else if head == "first"@ && n != 2 {
        Some("first expects 1 argument"@)
    } else if head == "rest"@ && n != 2 {
        Some("rest expects 1 argument"@)
    } else if head == "nth"@ && n != 3 {
        Some("nth expects 2 arguments"@)
    } else if head == "count"@ && n != 2 {
        Some("count expects 1 argument"@)
    } else if head == "symbol"@ && n != 2 {
        Some("symbol expects 1 argument"@)
    } else if head == "keyword"@ && n != 2 {
        Some("keyword expects 1 argument"@)
    } else {
        None
    }
}

/// Evaluates a macro-body list `(head args...)`.
#[verifier::loop_isolation(false)]
fn eval_list(items: &Vec<Datum>, sp: Span, env: &mut EvalEnv, fuel: usize, gensym: &mut usize) -> (r: DslResult<Datum>)
    ensures
        fuel == 0 ==> r is Err && r->Err_0.message@ == "macro evaluation limit exceeded"@ && r->Err_0.span == Some(sp),
        fuel > 0 && items@.len() == 0 ==> (r matches Ok(Datum::List(v, lsp)) && v@.len() == 0 && lsp == sp),
        fuel > 0 && items@.len() > 0 && !(items@[0] is Symbol) ==> r is Err
            && r->Err_0.message@ == "macro call head must be a symbol"@ && r->Err_0.span == Some(crate::datum::spec_datum_span(items@[0])),
        fuel > 0 && items@.len() > 0 && items@[0] is Symbol ==> {
            let h = items@[0]->Symbol_0@;
            let n = items@.len() as int;
            &&& macro_arity_error(h, n) matches Some(m) ==> r is Err && r->Err_0.message@ == m && r->Err_0.span == Some(sp)
            &&& !is_macro_fn(h) ==> r is Err
                && r->Err_0.message@ == "unknown macro function '"@ + h + "'"@ && r->Err_0.span == Some(sp)
            &&& h == "quote"@ && n == 2 ==> (r matches Ok(d) && crate::datum::datum_same(d, items@[1])
                && final(env).vars@ == old(env).vars@)
            &&& h == "if"@ && 3 <= n <= 4 && fuel > 2 ==> match known_value(items@[1], old(env).vars@) {
                Some(c) => if_result(c, items@, old(env).vars@, sp, r),
                None => true,
            }
            &&& h == "first"@ && n == 2 && fuel > 2 ==> match known_value(items@[1], old(env).vars@) {
                Some(v) => first_result(v, sp, r),
                None => true,
            }
            &&& h == "cons"@ && n == 3 && fuel > 2 ==> match (known_value(items@[1], old(env).vars@),
                known_value(items@[2], old(env).vars@)) {
                (Some(x), Some(v)) => cons_result(x, v, sp, r),
                _ => true,
            }
            &&& h == "rest"@ && n == 2 && fuel > 2 ==> match known_value(items@[1], old(env).vars@) {
                Some(v) => rest_result(v, sp, r),
                None => true,
            }
            &&& h == "list"@ ==> (r matches Ok(d) ==> (d matches Datum::List(v, lsp) && v@.len() == n - 1 && lsp == sp))
            &&& h == "vec"@ ==> (r matches Ok(d) ==> (d matches Datum::Vec(v, lsp) && v@.len() == n - 1 && lsp == sp))
            &&& h == "hash-set"@ ==> (r matches Ok(d) ==> (d matches Datum::SetForm(v, lsp) && v@.len() == n - 1 && lsp == sp))
        },
    decreases fuel, 1nat,
{
    if fuel == 0 {
        return Err(Diag::new("macro evaluation limit exceeded").with_span(sp));
    }
    if items.len() == 0 {
        return Ok(Datum::List(Vec::new(), sp));
    }
    proof {
        reveal_strlit("quote");
        reveal_strlit("syntax-quote");
        reveal_strlit("if");
        reveal_strlit("do");
        reveal_strlit("let");
        reveal_strlit("list");
        reveal_strlit("list*");
        reveal_strlit("vec");
        reveal_strlit("hash-map");
        reveal_strlit("hash-set");
        reveal_strlit("apply");
        reveal_strlit("map");
        reveal_strlit("reduce");
        reveal_strlit("gensym");
        reveal_strlit("cons");
        reveal_strlit("concat");
        reveal_strlit("first");
        reveal_strlit("rest");
        reveal_strlit("nth");
        reveal_strlit("count");
        reveal_strlit("symbol");
        reveal_strlit("keyword");
        assert("quote"@.len() == 5 && "syntax-quote"@.len() == 12 && "if"@.len() == 2 && "do"@.len() == 2 && "let"@.len() == 3 && "list"@.len() == 4 && "list*"@.len() == 5 && "vec"@.len() == 3 && "hash-map"@.len() == 8 && "hash-set"@.len() == 8 && "apply"@.len() == 5 && "map"@.len() == 3 && "reduce"@.len() == 6 && "gensym"@.len() == 6 && "cons"@.len() == 4 && "concat"@.len() == 6 && "first"@.len() == 5 && "rest"@.len() == 4 && "nth"@.len() == 3 && "count"@.len() == 5 && "symbol"@.len() == 6 && "keyword"@.len() == 7);
        assert("quote"@ != "list*"@) by {
            assert("quote"@[0] != "list*"@[0]);
        }
        assert("quote"@ != "apply"@) by {
            assert("quote"@[0] != "apply"@[0]);
        }
        assert("quote"@ != "first"@) by {
            assert("quote"@[0] != "first"@[0]);
        }
        assert("quote"@ != "count"@) by {
            assert("quote"@[0] != "count"@[0]);
        }
        assert("if"@ != "do"@) by {
            assert("if"@[0] != "do"@[0]);
        }
        assert("let"@ != "vec"@) by {
            assert("let"@[0] != "vec"@[0]);
        }
        assert("let"@ != "map"@) by {
            assert("let"@[0] != "map"@[0]);
        }
        assert("let"@ != "nth"@) by {
            assert("let"@[0] != "nth"@[0]);
        }
        assert("list"@ != "cons"@) by {
            assert("list"@[0] != "cons"@[0]);
        }
        assert("list"@ != "rest"@) by {
            assert("list"@[0] != "rest"@[0]);
        }
        assert("list*"@ != "apply"@) by {
            assert("list*"@[0] != "apply"@[0]);
        }
        assert("list*"@ != "first"@) by {
            assert("list*"@[0] != "first"@[0]);
        }
        assert("list*"@ != "count"@) by {
            assert("list*"@[0] != "count"@[0]);
        }
        assert("vec"@ != "map"@) by {
            assert("vec"@[0] != "map"@[0]);
        }
        assert("vec"@ != "nth"@) by {
            assert("vec"@[0] != "nth"@[0]);
        }
        assert("hash-map"@ != "hash-set"@) by {
            assert("hash-map"@[5] != "hash-set"@[5]);
        }
        assert("apply"@ != "first"@) by {
            assert("apply"@[0] != "first"@[0]);
        }
        assert("apply"@ != "count"@) by {
            assert("apply"@[0] != "count"@[0]);
        }
        assert("map"@ != "nth"@) by {
            assert("map"@[0] != "nth"@[0]);
        }
        assert("reduce"@ != "gensym"@) by {
            assert("reduce"@[0] != "gensym"@[0]);
        }
        assert("reduce"@ != "concat"@) by {
            assert("reduce"@[0] != "concat"@[0]);
        }
        assert("reduce"@ != "symbol"@) by {
            assert("reduce"@[0] != "symbol"@[0]);
        }
        assert("gensym"@ != "concat"@) by {
            assert("gensym"@[0] != "concat"@[0]);
        }
        assert("gensym"@ != "symbol"@) by {
            assert("gensym"@[0] != "symbol"@[0]);
        }
        assert("cons"@ != "rest"@) by {
            assert("cons"@[0] != "rest"@[0]);
        }
        assert("concat"@ != "symbol"@) by {
            assert("concat"@[0] != "symbol"@[0]);
        }
        assert("first"@ != "count"@) by {
            assert("first"@[0] != "count"@[0]);
        }
    }
    let head = match &items[0] {
        Datum::Symbol(s, _) => crate::text::copy(s),
        _ => return Err(Diag::new("macro call head must be a symbol").with_span(datum_span(&items[0]))),
    };
    let n = items.len();
    if is_lit(&head, "quote") {
        if n != 2 {
            return Err(Diag::new("quote form is (quote x)").with_span(sp));
        }
        proof {
            assert(head@ == "quote"@);

        }
        return Ok(clone_datum(&items[1]));
    }
    if is_lit(&head, "syntax-quote") {
        if n != 2 {
            return Err(Diag::new("syntax-quote form is (syntax-quote x)").with_span(sp));
        }
        let mut state = GensymState { map: Vec::new() };
        return syntax_quote(&items[1], env, &mut state, fuel - 1, gensym);
    }
    if is_lit(&head, "if") {
        if n < 3 || n > 4 {
            return Err(Diag::new("if form is (if cond then [else])").with_span(sp));
        }
        proof {
            assert(head@ == "if"@);
        }
        let cond = eval(&items[1], env, fuel - 1, gensym)?;
        proof {
            if fuel > 2 && known_value(items@[1], old(env).vars@) is Some {
                lemma_same_truthy(cond, known_value(items@[1], old(env).vars@)->Some_0);
            }
        }
        if is_truthy(&cond) {
            return eval(&items[2], env, fuel - 1, gensym);
        }
        if n == 4 {
            return eval(&items[3], env, fuel - 1, gensym);
        }
        return Ok(Datum::Nil(sp));
    }
    if is_lit(&head, "do") {
        proof {
            assert(head@ == "do"@);

        }
        let mut last = Datum::Nil(sp);
        let mut i: usize = 1;
        while i < n
            invariant
                fuel > 0,
                n == items@.len(),
            decreases n - i,
        {
            last = eval(&items[i], env, fuel - 1, gensym)?;
            i = i + 1;
        }
        return Ok(last);
    }
    if is_lit(&head, "let") {
        if n != 3 {
            return Err(Diag::new("let form is (let [bindings] body)").with_span(sp));
        }
        let bindings = match &items[1] {
            Datum::Vec(v, _) => v,
            _ => return Err(Diag::new("let bindings must be a vector").with_span(datum_span(&items[1]))),
        };
        if bindings.len() % 2 != 0 {
            return Err(Diag::new("let bindings must be name/value pairs").with_span(sp));
        }
        let mut local = EvalEnv::with_parent(env);
        let mut idx: usize = 0;
        while idx < bindings.len()
            invariant
                fuel > 0,
                bindings@.len() % 2 == 0,
                idx % 2 == 0,
            decreases bindings@.len() - idx,
        {
            let name = match &bindings[idx] {
                Datum::Symbol(s, _) => s.clone(),
                _ => return Err(Diag::new("let binding must be a symbol").with_span(datum_span(&bindings[idx]))),
            };
            let val = eval(&bindings[idx + 1], &mut local, fuel - 1, gensym)?;
            local.set(&name, val);
            idx = idx + 2;
        }
        return eval(&items[2], &mut local, fuel - 1, gensym);
    }
    if is_lit(&head, "list") {
        let out = eval_all(items, 1, env, fuel, gensym)?;
        return Ok(Datum::List(out, sp));
    }
    if is_lit(&head, "list*") {
        if n < 2 {
            return Err(Diag::new("list* expects at least 1 argument").with_span(sp));
        }
        let mut out: Vec<Datum> = Vec::new();
        let mut i: usize = 1;
        while i < n - 1
            invariant
                fuel > 0,
                n == items@.len(),
                n >= 2,
            decreases n - i,
        {
            out.push(eval(&items[i], env, fuel - 1, gensym)?);
            i = i + 1;
        }
        let tail = eval(&items[n - 1], env, fuel - 1, gensym)?;
        match seq_items(tail) {
            Some(mut rest) => {
                out.append(&mut rest);
                return Ok(Datum::List(out, sp));
            }
            None => return Err(Diag::new("list* tail must be list or vector").with_span(sp)),
        }
    }
    if is_lit(&head, "vec") {
        let out = eval_all(items, 1, env, fuel, gensym)?;
        return Ok(Datum::Vec(out, sp));
    }
    if is_lit(&head, "hash-map") {
        if (n - 1) % 2 != 0 {
            return Err(Diag::new("hash-map expects even number of forms").with_span(sp));
        }
        let mut entries: Vec<(Datum, Datum)> = Vec::new();
        let mut idx: usize = 1;
        while idx < n - 1
            invariant
                fuel > 0,
                n == items@.len(),
                n >= 1,
            decreases n - idx,
        {
            let k = eval(&items[idx], env, fuel - 1, gensym)?;
            let v = eval(&items[idx + 1], env, fuel - 1, gensym)?;
            entries.push((k, v));
            idx = idx + 2;
        }
        return Ok(Datum::MapForm(entries, sp));
    }
    if is_lit(&head, "hash-set") {
        let out = eval_all(items, 1, env, fuel, gensym)?;
        return Ok(Datum::SetForm(out, sp));
    }
    if is_lit(&head, "apply") {
        if n < 3 {
            return Err(Diag::new("apply expects function and args").with_span(sp));
        }
        let func = match &items[1] {
            Datum::Symbol(s, _) => s.clone(),
            _ => return Err(Diag::new("apply expects a symbol function").with_span(datum_span(&items[1]))),
        };
        let mut call: Vec<Datum> = Vec::new();
        call.push(Datum::Symbol(func, sp));
        let mut i: usize = 2;
        while i < n - 1
            invariant
                fuel > 0,
                n == items@.len(),
                n >= 3,
            decreases n - i,
        {
            call.push(eval(&items[i], env, fuel - 1, gensym)?);
            i = i + 1;
        }
        let tail = eval(&items[n - 1], env, fuel - 1, gensym)?;
        match seq_items(tail) {
            Some(mut rest) => call.append(&mut rest),
            None => return Err(Diag::new("apply tail must be list or vector").with_span(sp)),
        }
        return eval_list(&call, sp, env, fuel - 1, gensym);
    }
    if is_lit(&head, "map") {
        if n != 3 {
            return Err(Diag::new("map expects function and collection").with_span(sp));
        }
        let func = match &items[1] {
            Datum::Symbol(s, _) => s.clone(),
            _ => return Err(Diag::new("map expects a symbol function").with_span(datum_span(&items[1]))),
        };
        let coll = eval(&items[2], env, fuel - 1, gensym)?;
        let elems = match seq_items(coll) {
            Some(e) => e,
            None => return Err(Diag::new("map expects list or vector").with_span(datum_span(&items[2]))),
        };
        let mut out: Vec<Datum> = Vec::new();
        let mut i: usize = 0;
        while i < elems.len()
            invariant
                fuel > 0,
            decreases elems@.len() - i,
        {
            let mut call_items: Vec<Datum> = Vec::new();
            call_items.push(Datum::Symbol(func.clone(), sp));
            call_items.push(clone_datum(&elems[i]));
            let call = Datum::List(call_items, sp);
            out.push(eval(&call, env, fuel - 1, gensym)?);
            i = i + 1;
        }
        return Ok(Datum::List(out, sp));
    }
    if is_lit(&head, "reduce") {
        if n < 3 || n > 4 {
            return Err(Diag::new("reduce expects (reduce f coll) or (reduce f init coll)").with_span(sp));
        }
        let func = match &items[1] {
            Datum::Symbol(s, _) => s.clone(),
            _ => return Err(Diag::new("reduce expects a symbol function").with_span(datum_span(&items[1]))),
        };
        let init = if n == 4 { Some(eval(&items[2], env, fuel - 1, gensym)?) } else { None };
        let coll_idx: usize = if n == 4 { 3 } else { 2 };
        let coll = eval(&items[coll_idx], env, fuel - 1, gensym)?;
        let elems = match seq_items(coll) {
            Some(e) => e,
            None => return Err(Diag::new("reduce expects list or vector").with_span(datum_span(&items[coll_idx]))),
        };
        let mut start: usize = 0;
        let mut acc = match init {
            Some(v) => v,
            None => {
                if elems.len() == 0 {
                    return Err(Diag::new("reduce on empty collection").with_span(sp));
                }
                start = 1;
                clone_datum(&elems[0])
            }
        };
        let mut i: usize = start;
        while i < elems.len()
            invariant
                fuel > 0,
            decreases elems@.len() - i,
        {
            let mut call_items: Vec<Datum> = Vec::new();
            call_items.push(Datum::Symbol(func.clone(), sp));
            call_items.push(acc);
            call_items.push(clone_datum(&elems[i]));
            let call = Datum::List(call_items, sp);
            acc = eval(&call, env, fuel - 1, gensym)?;
            i = i + 1;
        }
        return Ok(acc);
    }
    if is_lit(&head, "gensym") {
        if n > 2 {
            return Err(Diag::new("gensym expects 0 or 1 argument").with_span(sp));
        }
        let prefix = if n == 2 {
            match eval(&items[1], env, fuel - 1, gensym)? {
                Datum::Str(s, _) => s,
                Datum::Symbol(s, _) => s,
                _ => return Err(Diag::new("gensym prefix must be a symbol or string").with_span(datum_span(&items[1]))),
            }
        } else {
            String::from_str("g")
        };
        let name = fresh_gensym(&prefix, gensym);
        return Ok(Datum::Symbol(name, sp));
    }
    if is_lit(&head, "cons") {
        if n != 3 {
            return Err(Diag::new("cons expects 2 arguments").with_span(sp));
        }
        let head_val = eval(&items[1], env, fuel - 1, gensym)?;
        let tail = eval(&items[2], env, fuel - 1, gensym)?;
        let ghost hv = head_val;
        let ghost tv = tail;
        let mut out: Vec<Datum> = Vec::new();
        out.push(head_val);
        match seq_items(tail) {
            Some(mut rest) => {
                let ghost rest0 = rest@;
                out.append(&mut rest);
                proof {
                    if fuel > 2 && known_value(items@[1], old(env).vars@) is Some
                        && known_value(items@[2], old(env).vars@) is Some {
                        let x = known_value(items@[1], old(env).vars@)->Some_0;
                        let w = known_value(items@[2], old(env).vars@)->Some_0;
                        assert(crate::datum::datum_same(hv, x));
                        assert(crate::datum::datum_same(tv, w));
                        assert(tv is List ==> rest0 == tv->List_0@);
                        assert(tv is Vec ==> rest0 == tv->Vec_0@);
                        assert(out@[0] == hv);
                        let ws = if w is List { w->List_0@ } else { w->Vec_0@ };
                        assert forall|k: int| 0 <= k < ws.len() implies crate::datum::datum_same(#[trigger] out@[k + 1], ws[k]) by {
                            assert(out@[k + 1] == rest0[k]);
                        }
                    }
                }
            },
            None => return Err(Diag::new("cons expects list or vector").with_span(datum_span(&items[2]))),
        }
        return Ok(Datum::List(out, sp));
    }
    if is_lit(&head, "concat") {
        let mut out: Vec<Datum> = Vec::new();
        let mut i: usize = 1;
        while i < n
            invariant
                fuel > 0,
                n == items@.len(),
            decreases n - i,
        {
            let val = eval(&items[i], env, fuel - 1, gensym)?;
            match seq_items(val) {
                Some(mut rest) => out.append(&mut rest),
                None => return Err(Diag::new("concat expects lists or vectors").with_span(datum_span(&items[i]))),
            }
            i = i + 1;
        }
        return Ok(Datum::List(out, sp));
    }
    if is_lit(&head, "first") {
        if n != 2 {
            return Err(Diag::new("first expects 1 argument").with_span(sp));
        }
        let val = eval(&items[1], env, fuel - 1, gensym)?;
        let ghost val0 = val;
        match seq_items(val) {
            Some(mut v) => {
                if v.len() == 0 {
                    return Ok(Datum::Nil(sp));
                }
                let ghost v0 = v@;
                let f = v.swap_remove(0);
                proof {
                    assert(f == v0[0]);
                    if fuel > 2 && known_value(items@[1], old(env).vars@) is Some {
                        let w = known_value(items@[1], old(env).vars@)->Some_0;
                        assert(crate::datum::datum_same(val0, w));
                        assert(val0 is List ==> v0 == val0->List_0@);
                        assert(val0 is Vec ==> v0 == val0->Vec_0@);
                    }
                }
                return Ok(f);
            }
            None => return Err(Diag::new("first expects list or vector").with_span(datum_span(&items[1]))),
        }
    }
    if is_lit(&head, "rest") {
        if n != 2 {
            return Err(Diag::new("rest expects 1 argument").with_span(sp));
        }
        let val = eval(&items[1], env, fuel - 1, gensym)?;
        let ghost val0 = val;
        match seq_items(val) {
            Some(v) => {
                let mut rest: Vec<Datum> = Vec::new();
                let mut i: usize = 1;
                while i < v.len()
                    invariant
                        i >= 1,
                        i == 1 || i <= v@.len(),
                        rest@.len() == i - 1,
                        forall|k: int| 0 <= k < rest@.len() ==> crate::datum::datum_same(#[trigger] rest@[k], v@[k + 1]),
                    decreases v@.len() - i,
                {
                    rest.push(clone_datum(&v[i]));
                    i = i + 1;
                }
                proof {
                    assert(v@.len() == 0 ==> rest@.len() == 0);
                    assert(v@.len() > 0 ==> rest@.len() + 1 == v@.len());
                    if fuel > 2 && known_value(items@[1], old(env).vars@) is Some {
                        let w = known_value(items@[1], old(env).vars@)->Some_0;
                        assert(crate::datum::datum_same(val0, w));
                        let ws = if w is List { w->List_0@ } else { w->Vec_0@ };
                        assert(val0 is List ==> v@ == val0->List_0@);
                        assert(val0 is Vec ==> v@ == val0->Vec_0@);
                        assert(w is List || w is Vec);
                        assert(ws.len() == v@.len());
                        assert(forall|k: int| 0 <= k < ws.len() ==> crate::datum::datum_same(#[trigger] v@[k], ws[k]));
                        assert forall|k: int| 0 <= k < rest@.len() implies crate::datum::datum_same(#[trigger] rest@[k], ws[k + 1]) by {
                            assert(0 <= k + 1 < ws.len());
                            assert(crate::datum::datum_same(v@[k + 1], ws[k + 1]));
                            crate::datum::lemma_datum_same_trans(rest@[k], v@[k + 1], ws[k + 1]);
                        }
                    }
                }
                return Ok(Datum::List(rest, sp));
            }
            None => return Err(Diag::new("rest expects list or vector").with_span(datum_span(&items[1]))),
        }
    }
    if is_lit(&head, "nth") {
        if n != 3 {
            return Err(Diag::new("nth expects 2 arguments").with_span(sp));
        }
        let val = eval(&items[1], env, fuel - 1, gensym)?;
        let idx = eval(&items[2], env, fuel - 1, gensym)?;
        let idx: i64 = match idx {
            Datum::Int(v, _) => v,
            _ => return Err(Diag::new("nth expects integer index").with_span(datum_span(&items[2]))),
        };
        match seq_items(val) {
            Some(v) => {
                let i = wrap_to_usize(idx);
                if i < v.len() {
                    return Ok(clone_datum(&v[i]));
                }
                return Ok(Datum::Nil(sp));
            }
            None => return Err(Diag::new("nth expects list or vector").with_span(datum_span(&items[1]))),
        }
    }
    if is_lit(&head, "count") {
        if n != 2 {
            return Err(Diag::new("count expects 1 argument").with_span(sp));
        }
        let val = eval(&items[1], env, fuel - 1, gensym)?;
        let len: usize = match &val {
            Datum::List(v, _) => v.len(),
            Datum::Vec(v, _) => v.len(),
            Datum::MapForm(v, _) => v.len(),
            Datum::SetForm(v, _) => v.len(),
            _ => return Err(Diag::new("count expects list, vector, map, or set").with_span(datum_span(&items[1]))),
        };
        return Ok(Datum::Int(usize_as_i64(len), sp));
    }
    if is_lit(&head, "symbol") {
        if n != 2 {
            return Err(Diag::new("symbol expects 1 argument").with_span(sp));
        }
        let val = eval(&items[1], env, fuel - 1, gensym)?;
        let name = match val {
            Datum::Str(s, _) => s,
            Datum::Symbol(s, _) => s,
            _ => return Err(Diag::new("symbol expects string or symbol").with_span(datum_span(&items[1]))),
        };
        return Ok(Datum::Symbol(name, sp));
    }
    if is_lit(&head, "keyword") {
        if n != 2 {
            return Err(Diag::new("keyword expects 1 argument").with_span(sp));
        }
        let val = eval(&items[1], env, fuel - 1, gensym)?;
        let name = match val {
            Datum::Str(s, _) => s,
            Datum::Symbol(s, _) => s,
            Datum::SymbolLit(s, _) => s,
            _ => return Err(Diag::new("keyword expects string or symbol").with_span(datum_span(&items[1]))),
        };
        return Ok(Datum::SymbolLit(name, sp));
    }
    Err(Diag::from_message(concat3("unknown macro function '", head.as_str(), "'")).with_span(sp))
}

/// `v as usize`: the low bits of a two's complement value.
fn wrap_to_usize(v: i64) -> usize {
    if v >= 0 {
        if (v as u64) <= (usize::MAX as u64) { v as usize } else { usize::MAX }
    } else {
        usize::MAX
    }
}

/// `n as i64`, saturating.
fn usize_as_i64(n: usize) -> i64 {
    if (n as u64) <= (i64::MAX as u64) { n as i64 } else { i64::MAX }
}

/// A fresh symbol `base-gN`, `N` drawn from the program-wide counter.
fn fresh_gensym(base: &String, counter: &mut usize) -> String {
    let id = usize_to_string(*counter);
    if *counter < usize::MAX {
        *counter = *counter + 1;
    }
    concat3(base.as_str(), "-g", id.as_str())
}

/// Names that `sym#` stands for within one syntax-quote.
struct GensymState {
    map: Vec<(String, String)>,
}

impl GensymState {
    /// The name that `base#` stands for: the one given before, else a
    /// fresh one, which is recorded.
    fn auto(&mut self, base: &String, counter: &mut usize) -> (r: String)
        ensures
            (exists|i: int| 0 <= i < old(self).map@.len() && (#[trigger] old(self).map@[i]).0@ == base@
                && (forall|j: int| 0 <= j < i ==> (#[trigger] old(self).map@[j]).0@ != base@)
                && r@ == old(self).map@[i].1@ && final(self).map@ == old(self).map@)
            || ((forall|j: int| 0 <= j < old(self).map@.len() ==> (#[trigger] old(self).map@[j]).0@ != base@)
                && final(self).map@.len() == old(self).map@.len() + 1
                && final(self).map@.drop_last() == old(self).map@
                && final(self).map@.last().0@ == base@ && final(self).map@.last().1@ == r@),
    {
        let mut i: usize = 0;
        while i < self.map.len()
            invariant
                i <= self.map@.len(),
                self.map@ == old(self).map@,
                forall|j: int| 0 <= j < i ==> (#[trigger] self.map@[j]).0@ != base@,
            decreases self.map@.len() - i,
        {
            if self.map[i].0 == *base {
                return self.map[i].1.clone();
            }
            i = i + 1;
        }
        let name = fresh_gensym(base, counter);
        self.map.push((base.clone(), name.clone()));
        assert(self.map@.drop_last() =~= old(self).map@);
        name
    }
}

/// If `it` is `(unquote-splicing x)`, its argument; errors when malformed.
/// `d` is a list headed by the symbol `unquote-splicing`.
pub open spec fn is_splice(d: Datum) -> bool {
    &&& d is List
    &&& d->List_0@.len() > 0
    &&& d->List_0@[0] is Symbol
    &&& d->List_0@[0]->Symbol_0@ == "unquote-splicing"@
}

fn splice_arg(it: &Datum) -> (r: DslResult<Option<&Datum>>)
    ensures
        !is_splice(*it) ==> r == Ok::<Option<&Datum>, Diag>(None),
        is_splice(*it) && it->List_0@.len() != 2 ==> r is Err
            && r->Err_0.message@ == "unquote-splicing form is (unquote-splicing x)"@,
        is_splice(*it) && it->List_0@.len() == 2 ==> r == Ok::<Option<&Datum>, Diag>(Some(&it->List_0@[1])),
{
    if let Datum::List(inner, _) = it {
        if inner.len() > 0 {
            if let Datum::Symbol(h, _) = &inner[0] {
                if is_lit(h, "unquote-splicing") {
                    if inner.len() != 2 {
                        return Err(Diag::new("unquote-splicing form is (unquote-splicing x)").with_span(datum_span(it)));
                    }
                    return Ok(Some(&inner[1]));
                }
            }
        }
    }
    Ok(None)
}

fn syntax_quote_items(items: &Vec<Datum>, env: &mut EvalEnv, state: &mut GensymState, fuel: usize, gensym: &mut usize) -> (r: DslResult<Vec<Datum>>)
    requires
        fuel > 0,
    decreases fuel, 0nat,
{
    let mut out: Vec<Datum> = Vec::new();
    let mut i: usize = 0;
    while i < items.len()
        invariant
            fuel > 0,
        decreases items@.len() - i,
    {
        match splice_arg(&items[i])? {
            Some(arg) => {
                let val = eval(arg, env, fuel - 1, gensym)?;
                match seq_items(val) {
                    Some(mut rest) => out.append(&mut rest),
                    None => return Err(Diag::new("unquote-splicing expects list or vector").with_span(datum_span(arg))),
                }
            }
            None => {
                out.push(syntax_quote(&items[i], env, state, fuel - 1, gensym)?);
            }
        }
        i = i + 1;
    }
    Ok(out)
}

/// Builds the form a syntax-quote stands for.
fn syntax_quote(form: &Datum, env: &mut EvalEnv, state: &mut GensymState, fuel: usize, gensym: &mut usize) -> (r: DslResult<Datum>)
    decreases fuel, 1nat,
{
    if fuel == 0 {
        return Err(Diag::new("macro evaluation limit exceeded").with_span(datum_span(form)));
    }
    match form {
        Datum::List(items, sp) => {
            if items.len() > 0 {
                if let Datum::Symbol(head, _) = &items[0] {
                    if is_lit(head, "unquote") {
                        if items.len() != 2 {
                            return Err(Diag::new("unquote form is (unquote x)").with_span(*sp));
                        }
                        return eval(&items[1], env, fuel - 1, gensym);
                    }
                    if is_lit(head, "unquote-splicing") {
                        return Err(Diag::new("unquote-splicing not in list").with_span(*sp));
                    }
                }
            }
            let out = syntax_quote_items(items, env, state, fuel, gensym)?;
            Ok(Datum::List(out, *sp))
        }
        Datum::Vec(items, sp) => {
            let out = syntax_quote_items(items, env, state, fuel, gensym)?;
            Ok(Datum::Vec(out, *sp))
        }
        Datum::MapForm(entries, sp) => {
            let mut out: Vec<(Datum, Datum)> = Vec::new();
            let mut i: usize = 0;
            while i < entries.len()
                invariant
                    fuel > 0,
                decreases entries@.len() - i,
            {
                let k = syntax_quote(&entries[i].0, env, state, fuel - 1, gensym)?;
                let v = syntax_quote(&entries[i].1, env, state, fuel - 1, gensym)?;
                out.push((k, v));
                i = i + 1;
            }
            Ok(Datum::MapForm(out, *sp))
        }
        Datum::SetForm(items, sp) => {
            let mut out: Vec<Datum> = Vec::new();
            let mut i: usize = 0;
            while i < items.len()
                invariant
                    fuel > 0,
                decreases items@.len() - i,
            {
                out.push(syntax_quote(&items[i], env, state, fuel - 1, gensym)?);
                i = i + 1;
            }
            Ok(Datum::SetForm(out, *sp))
        }
        Datum::Meta { meta, form: inner, span } => {
            let meta = syntax_quote(meta, env, state, fuel - 1, gensym)?;
            let inner = syntax_quote(inner, env, state, fuel - 1, gensym)?;
            Ok(Datum::Meta { meta: Box::new(meta), form: Box::new(inner), span: *span })
        }
        Datum::Symbol(name, sp) => {
            let cs = string_chars(name);
            if cs.len() > 0 && cs[cs.len() - 1] == '#' {
                if cs.len() == 1 {
                    return Err(Diag::new("auto-gensym requires a symbol prefix").with_span(*sp));
                }
                let base = sub_string(cs.as_slice(), 0, cs.len() - 1);
                return Ok(Datum::Symbol(state.auto(&base, gensym), *sp));
            }
            Ok(Datum::Symbol(name.clone(), *sp))
        }
        _ => Ok(clone_datum(form)),
    }
}

} // verus!
