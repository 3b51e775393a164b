//! Type checking: the environments of functions and types, and inference
//! of expression types by unification.

use vstd::prelude::*;
use crate::ast::{rust_value_name_of, Expr, Field, FnDef, Param, StructDef, Top, Ty, UnionDef, VariantDef};
use crate::infer::{
    clone_ity, clone_itys, freshen_infer_ty, infer_from_ty, infer_to_ty, infer_to_ty_allow_generic, InferCtx, InferTy,
};
use crate::infer_expr::InferExpr;
use crate::diag::{Diag, DslResult, Span};
use crate::text::{concat3, concat5, copy, decimal, usize_to_string};
use crate::typed::{ParamMode, SpanKey, TypedDef, TypedExpr, TypedFn};

verus! {

// ---------------------------------------------------------------------------
// Function signatures

/// The signature of one overload of a function.
#[derive(Debug, Clone)]
pub struct FnSig {
    pub params: Vec<Ty>,
    pub param_modes: Vec<ParamMode>,
    pub ret: Ty,
}

/// Functions by name; a name has at most one overload of each arity.
#[derive(Debug, Clone)]
pub struct FnEnv {
    pub fns: Vec<(String, Vec<FnSig>)>,
}

/// Whether some entry of `fns` is named `name`.
pub open spec fn has_name<V>(fns: Seq<(String, V)>, name: Seq<char>) -> bool {
    exists|i: int| 0 <= i < fns.len() && (#[trigger] fns[i]).0@ == name
}

/// No two entries of `fns` have the same name.
pub open spec fn names_unique<V>(fns: Seq<(String, V)>) -> bool {
    forall|i: int, j: int|
        0 <= i < fns.len() && 0 <= j < fns.len() && (#[trigger] fns[i]).0@ == (#[trigger] fns[j]).0@
            ==> i == j
}

/// Whether some signature in `sigs` takes `arity` parameters.
pub open spec fn has_arity(sigs: Seq<FnSig>, arity: nat) -> bool {
    exists|i: int| 0 <= i < sigs.len() && (#[trigger] sigs[i]).params@.len() == arity
}

/// The message for a second overload of `name` with an arity already taken.
pub open spec fn dup_fn_message(name: Seq<char>, arity: nat) -> Seq<char> {
    "duplicate function '"@ + name + "' with arity "@ + decimal(arity)
}

impl FnEnv {
    /// The environment's well-formedness: names are unique.
    pub open spec fn wf(&self) -> bool {
        names_unique(self.fns@)
    }

    /// The overloads registered under `name`, in the order they were added.
    pub open spec fn sigs(&self, name: Seq<char>) -> Seq<FnSig> {
        if has_name(self.fns@, name) {
            self.fns@[choose|i: int| 0 <= i < self.fns@.len() && (#[trigger] self.fns@[i]).0@ == name].1@
        } else {
            Seq::empty()
        }
    }

    /// An empty environment.
    pub fn new() -> (e: FnEnv)
        ensures
            e.wf(),
            forall|n: Seq<char>| #[trigger] e.sigs(n) == Seq::<FnSig>::empty(),
    {
        FnEnv { fns: Vec::new() }
    }

    /// The index of the entry named `name`, if there is one.
    fn find(&self, name: &str) -> (r: Option<usize>)
        requires
            self.wf(),
        ensures
            match r {
                Some(i) => i < self.fns@.len() && self.fns@[i as int].0@ == name@
                    && self.sigs(name@) == self.fns@[i as int].1@,
                None => !has_name(self.fns@, name@),
            },
    {
        let mut i: usize = 0;
        while i < self.fns.len()
            invariant
                self.wf(),
                i <= self.fns@.len(),
                forall|j: int| 0 <= j < i ==> (#[trigger] self.fns@[j]).0@ != name@,
            decreases self.fns@.len() - i,
        {
            if crate::text::str_is(self.fns[i].0.as_str(), name) {
                proof {
                    let k = choose|k: int| 0 <= k < self.fns@.len() && (#[trigger] self.fns@[k]).0@ == name@;
                    assert(self.fns@[k].0@ == self.fns@[i as int].0@);
                }
                return Some(i);
            }
            i = i + 1;
        }
        None
    }

    /// Adds an overload of `name`. Fails, changing nothing, when `name`
    /// already has an overload of the same arity.
    pub fn insert(&mut self, name: String, sig: FnSig) -> (r: DslResult<()>)
        requires
            old(self).wf(),
        ensures
            final(self).wf(),
            r is Err <==> has_arity(old(self).sigs(name@), sig.params@.len()),
            r is Err ==> r->Err_0.message@ == dup_fn_message(name@, sig.params@.len())
                && r->Err_0.span is None && final(self).fns@ == old(self).fns@,
            r is Ok ==> final(self).sigs(name@) == old(self).sigs(name@).push(sig),
            r is Ok ==> forall|n: Seq<char>| n != name@ ==> #[trigger] final(self).sigs(n) == old(self).sigs(n),
    {
        let arity = sig.params.len();
        match self.find(name.as_str()) {
            Some(i) => {
                let mut k: usize = 0;
                while k < self.fns[i].1.len()
                    invariant
                        self.wf(),
                        self.fns@ == old(self).fns@,
                        i < self.fns@.len(),
                        self.fns@[i as int].1@ == old(self).sigs(name@),
                        arity == sig.params@.len(),
                        k <= self.fns@[i as int].1@.len(),
                        forall|j: int| 0 <= j < k ==> (#[trigger] self.fns@[i as int].1@[j]).params@.len() != arity,
                    decreases self.fns@[i as int].1@.len() - k,
                {
                    if self.fns[i].1[k].params.len() == arity {
                        let n = usize_to_string(arity);
                        let msg = concat3("duplicate function '", name.as_str(), "' with arity ");
                        let msg = concat3(msg.as_str(), n.as_str(), "");
                        proof {
                            assert(old(self).sigs(name@)[k as int].params@.len() == arity);
                            assert(""@ =~= Seq::<char>::empty()) by {
                                reveal_strlit("");
                            }
                            assert(msg@ =~= dup_fn_message(name@, sig.params@.len()));
                        }
                        return Err(Diag::from_message(msg));
                    }
                    k = k + 1;
                }
                let ghost before = self.fns@;
                let (n, mut v) = self.fns.remove(i);
                v.push(sig);
                self.fns.insert(i, (n, v));
                proof {
                    assert forall|a: int, b: int|
                        0 <= a < self.fns@.len() && 0 <= b < self.fns@.len()
                            && (#[trigger] self.fns@[a]).0@ == (#[trigger] self.fns@[b]).0@ implies a == b by {
                        assert(self.fns@[a].0@ == before[a].0@);
                        assert(self.fns@[b].0@ == before[b].0@);
                    }
                    assert forall|m: Seq<char>| m != name@ implies #[trigger] self.sigs(m) == old(self).sigs(m) by {
                        if has_name(before, m) {
                            let j = choose|j: int| 0 <= j < before.len() && (#[trigger] before[j]).0@ == m;
                            assert(self.fns@[j].0@ == m);
                            let j2 = choose|j2: int| 0 <= j2 < self.fns@.len() && (#[trigger] self.fns@[j2]).0@ == m;
                            assert(before[j2].0@ == m);
                        } else {
                            if has_name(self.fns@, m) {
                                let j2 = choose|j2: int| 0 <= j2 < self.fns@.len() && (#[trigger] self.fns@[j2]).0@ == m;
                                assert(before[j2].0@ == m);
                            }
                        }
                    }
                    assert(self.fns@[i as int].0@ == name@);
                    let j2 = choose|j2: int| 0 <= j2 < self.fns@.len() && (#[trigger] self.fns@[j2]).0@ == name@;
                    assert(j2 == i);
                    assert forall|j: int| 0 <= j < old(self).sigs(name@).len() implies
                        (#[trigger] old(self).sigs(name@)[j]).params@.len() != arity by {
                    }
                }
                Ok(())
            },
            None => {
                let ghost before = self.fns@;
                let mut v: Vec<FnSig> = Vec::new();
                v.push(sig);
                self.fns.push((name, v));
                proof {
                    let last = before.len() as int;
                    assert(self.fns@[last].0@ == name@);
                    let j2 = choose|j2: int| 0 <= j2 < self.fns@.len() && (#[trigger] self.fns@[j2]).0@ == name@;
                    assert(j2 == last);
                    assert(self.fns@[last].1@ =~= Seq::<FnSig>::empty().push(sig));
                    assert forall|m: Seq<char>| m != name@ implies #[trigger] self.sigs(m) == old(self).sigs(m) by {
                        if has_name(before, m) {
                            let j = choose|j: int| 0 <= j < before.len() && (#[trigger] before[j]).0@ == m;
                            assert(self.fns@[j].0@ == m);
                            let k2 = choose|k2: int| 0 <= k2 < self.fns@.len() && (#[trigger] self.fns@[k2]).0@ == m;
                            assert(k2 != last);
                            assert(before[k2].0@ == m);
                        } else {
                            if has_name(self.fns@, m) {
                                let k2 = choose|k2: int| 0 <= k2 < self.fns@.len() && (#[trigger] self.fns@[k2]).0@ == m;
                                assert(k2 != last);
                                assert(before[k2].0@ == m);
                            }
                        }
                    }
                }
                Ok(())
            },
        }
    }

    /// The overloads of `name`, if it has any entry.
    pub fn get(&self, name: &str) -> (r: Option<&[FnSig]>)
        requires
            self.wf(),
        ensures
            r is Some <==> has_name(self.fns@, name@),
            r matches Some(s) ==> s@ == self.sigs(name@),
    {
        match self.find(name) {
            Some(i) => Some(self.fns[i].1.as_slice()),
            None => None,
        }
    }

    /// The first overload of `name` that takes `arity` parameters.
    pub fn get_arity(&self, name: &str, arity: usize) -> (r: Option<&FnSig>)
        requires
            self.wf(),
        ensures
            r is Some <==> has_arity(self.sigs(name@), arity as nat),
            r matches Some(s) ==> s.params@.len() == arity && exists|j: int|
                0 <= j < self.sigs(name@).len() && self.sigs(name@)[j] == *s && forall|k: int|
                    0 <= k < j ==> (#[trigger] self.sigs(name@)[k]).params@.len() != arity,
    {
        match self.find(name) {
            Some(i) => {
                let sigs = &self.fns[i].1;
                let mut k: usize = 0;
                while k < sigs.len()
                    invariant
                        sigs@ == self.sigs(name@),
                        k <= sigs@.len(),
                        forall|j: int| 0 <= j < k ==> (#[trigger] sigs@[j]).params@.len() != arity,
                    decreases sigs@.len() - k,
                {
                    if sigs[k].params.len() == arity {
                        return Some(&sigs[k]);
                    }
                    k = k + 1;
                }
                None
            },
            None => None,
        }
    }
}

// ---------------------------------------------------------------------------
// Type definitions

/// Records, enums and enum variants by name.
#[derive(Debug, Clone)]
pub struct TypeEnv {
    pub structs: Vec<StructDef>,
    pub unions: Vec<UnionDef>,
    pub variants: Vec<(String, (String, VariantDef))>,
}

/// Whether `name` is already used by a record, an enum or a variant.
pub open spec fn name_taken(
    structs: Seq<StructDef>,
    unions: Seq<UnionDef>,
    variants: Seq<(String, (String, VariantDef))>,
    name: Seq<char>,
) -> bool {
    (exists|i: int| 0 <= i < structs.len() && (#[trigger] structs[i]).name@ == name)
        || (exists|i: int| 0 <= i < unions.len() && (#[trigger] unions[i]).name@ == name)
        || has_name(variants, name)
}

/// The first variant of `vs` whose name is taken, counting the variants
/// before it as taken too.
pub open spec fn first_variant_clash(
    env: TypeEnv,
    vs: Seq<VariantDef>,
) -> Option<int> {
    if exists|i: int| 0 <= i < vs.len() && #[trigger] variant_clashes(env, vs, i) {
        Some(choose|i: int| 0 <= i < vs.len() && #[trigger] variant_clashes(env, vs, i) && forall|j: int|
            0 <= j < i ==> !variant_clashes(env, vs, j))
    } else {
        None
    }
}

/// The `i`th variant's name is taken in `env` or by an earlier variant.
pub open spec fn variant_clashes(env: TypeEnv, vs: Seq<VariantDef>, i: int) -> bool {
    name_taken(env.structs@, env.unions@, env.variants@, vs[i].name@)
        || exists|j: int| 0 <= j < i && (#[trigger] vs[j]).name@ == vs[i].name@
}

/// The entries that an enum adds to the variant table.
pub open spec fn variant_entries(ud: UnionDef) -> Seq<(Seq<char>, Seq<char>)> {
    ud.variants@.map_values(|v: VariantDef| (v.name@, ud.name@))
}

impl TypeEnv {
    /// An empty environment.
    pub fn new() -> (e: TypeEnv)
        ensures
            e.structs@.len() == 0,
            e.unions@.len() == 0,
            e.variants@.len() == 0,
    {
        TypeEnv { structs: Vec::new(), unions: Vec::new(), variants: Vec::new() }
    }

    fn taken(&self, name: &str) -> (b: bool)
        ensures
            b == name_taken(self.structs@, self.unions@, self.variants@, name@),
    {
        let mut i: usize = 0;
        while i < self.structs.len()
            invariant
                i <= self.structs@.len(),
                forall|j: int| 0 <= j < i ==> (#[trigger] self.structs@[j]).name@ != name@,
            decreases self.structs@.len() - i,
        {
            if crate::text::str_is(self.structs[i].name.as_str(), name) {
                return true;
            }
            i = i + 1;
        }
        let mut i: usize = 0;
        while i < self.unions.len()
            invariant
                i <= self.unions@.len(),
                forall|j: int| 0 <= j < self.structs@.len() ==> (#[trigger] self.structs@[j]).name@ != name@,
                forall|j: int| 0 <= j < i ==> (#[trigger] self.unions@[j]).name@ != name@,
            decreases self.unions@.len() - i,
        {
            if crate::text::str_is(self.unions[i].name.as_str(), name) {
                return true;
            }
            i = i + 1;
        }
        let mut i: usize = 0;
        while i < self.variants.len()
            invariant
                i <= self.variants@.len(),
                forall|j: int| 0 <= j < self.structs@.len() ==> (#[trigger] self.structs@[j]).name@ != name@,
                forall|j: int| 0 <= j < self.unions@.len() ==> (#[trigger] self.unions@[j]).name@ != name@,
                forall|j: int| 0 <= j < i ==> (#[trigger] self.variants@[j]).0@ != name@,
            decreases self.variants@.len() - i,
        {
            if crate::text::str_is(self.variants[i].0.as_str(), name) {
                return true;
            }
            i = i + 1;
        }
        false
    }

    /// Adds a record. Fails, changing nothing, when its name is taken.
    pub fn insert_struct(&mut self, sd: StructDef) -> (r: DslResult<()>)
        ensures
            r is Err <==> name_taken(old(self).structs@, old(self).unions@, old(self).variants@, sd.name@),
            r is Err ==> r->Err_0.message@ == "duplicate struct '"@ + sd.name@ + "'"@
                && r->Err_0.span == Some(sd.span) && *final(self) == *old(self),
            r is Ok ==> final(self).structs@ == old(self).structs@.push(sd)
                && final(self).unions@ == old(self).unions@ && final(self).variants@ == old(self).variants@,
    {
        if self.taken(sd.name.as_str()) {
            let msg = concat3("duplicate struct '", sd.name.as_str(), "'");
            return Err(Diag::from_message(msg).with_span(sd.span));
        }
        self.structs.push(sd);
        Ok(())
    }

    /// Adds an enum and its variants, in order. Fails when the enum's name
    /// is taken (changing nothing), or at the first variant whose name is
    /// taken, with the variants before it already added.
    pub fn insert_union(&mut self, ud: UnionDef) -> (r: DslResult<()>)
        ensures
            name_taken(old(self).structs@, old(self).unions@, old(self).variants@, ud.name@) ==> (r is Err
                && r->Err_0.message@ == "duplicate union '"@ + ud.name@ + "'"@
                && r->Err_0.span == Some(ud.span) && *final(self) == *old(self)),
            !name_taken(old(self).structs@, old(self).unions@, old(self).variants@, ud.name@) ==> (
            match first_variant_clash(*old(self), ud.variants@) {
                Some(i) => r is Err && r->Err_0.message@ == "duplicate variant '"@
                    + ud.variants@[i].name@ + "'"@ && r->Err_0.span == Some(ud.variants@[i].span)
                    && final(self).structs@ == old(self).structs@ && final(self).unions@ == old(self).unions@
                    && final(self).variants@.len() == old(self).variants@.len() + i
                    && final(self).variants@.subrange(0, old(self).variants@.len() as int) == old(self).variants@
                    && forall|k: int| 0 <= k < i ==> {
                        let e = #[trigger] final(self).variants@[old(self).variants@.len() + k];
                        e.0@ == ud.variants@[k].name@ && e.1.0@ == ud.name@
                            && crate::ast::variant_same(e.1.1, ud.variants@[k])
                    },
                None => r is Ok && final(self).unions@ == old(self).unions@.push(ud)
                    && final(self).structs@ == old(self).structs@
                    && final(self).variants@.len() == old(self).variants@.len() + ud.variants@.len()
                    && final(self).variants@.subrange(0, old(self).variants@.len() as int) == old(self).variants@
                    && forall|k: int| 0 <= k < ud.variants@.len() ==> {
                        let e = #[trigger] final(self).variants@[old(self).variants@.len() + k];
                        e.0@ == ud.variants@[k].name@ && e.1.0@ == ud.name@
                            && crate::ast::variant_same(e.1.1, ud.variants@[k])
                    },
            }),
    {
        if self.taken(ud.name.as_str()) {
            let msg = concat3("duplicate union '", ud.name.as_str(), "'");
            return Err(Diag::from_message(msg).with_span(ud.span));
        }
        let ghost env0 = *self;
        let ghost vs = ud.variants@;
        let n0 = self.variants.len();
        let mut i: usize = 0;
        while i < ud.variants.len()
            invariant
                vs == ud.variants@,
                env0 == *old(self),
                !name_taken(env0.structs@, env0.unions@, env0.variants@, ud.name@),
                i <= vs.len(),
                n0 == env0.variants@.len(),
                self.structs@ == env0.structs@,
                self.unions@ == env0.unions@,
                self.variants@.len() == n0 + i,
                self.variants@.subrange(0, n0 as int) == env0.variants@,
                forall|k: int| 0 <= k < i ==> {
                    let e = #[trigger] self.variants@[n0 + k];
                    e.0@ == vs[k].name@ && e.1.0@ == ud.name@ && crate::ast::variant_same(e.1.1, vs[k])
                },
                forall|k: int| 0 <= k < i ==> !variant_clashes(env0, vs, k),
            decreases vs.len() - i,
        {
            let v = &ud.variants[i];
            let clash = self.taken(v.name.as_str());
            proof {
                if clash {
                    if has_name(self.variants@, vs[i as int].name@) {
                        let w = choose|w: int| 0 <= w < self.variants@.len() && (#[trigger] self.variants@[w]).0@ == vs[i as int].name@;
                        if w < n0 {
                            assert(self.variants@.subrange(0, n0 as int)[w] == self.variants@[w]);
                            assert(env0.variants@[w].0@ == vs[i as int].name@);
                        } else {
                            let k = w - n0;
                            assert(self.variants@[n0 + k].0@ == vs[k].name@);
                            assert(vs[k].name@ == vs[i as int].name@);
                        }
                    }
                    assert(variant_clashes(env0, vs, i as int));
                    let c = first_variant_clash(env0, vs);
                    assert(c == Some(i as int));
                } else {
                    assert forall|j: int| 0 <= j < i implies (#[trigger] vs[j]).name@ != vs[i as int].name@ by {
                        assert(self.variants@[n0 + j].0@ == vs[j].name@);
                    }
                    assert forall|w: int| 0 <= w < env0.variants@.len() implies (#[trigger] env0.variants@[w]).0@ != vs[i as int].name@ by {
                        assert(self.variants@.subrange(0, n0 as int)[w] == self.variants@[w]);
                    }
                    assert(!variant_clashes(env0, vs, i as int));
                }
            }
            if clash {
                let msg = concat3("duplicate variant '", v.name.as_str(), "'");
                return Err(Diag::from_message(msg).with_span(v.span));
            }
            let ghost before = self.variants@;
            self.variants.push((v.name.clone(), (ud.name.clone(), crate::ast::clone_variant(v))));
            proof {
                assert(self.variants@.subrange(0, n0 as int) =~= before.subrange(0, n0 as int));
                assert forall|k: int| 0 <= k < i + 1 implies {
                    let e = #[trigger] self.variants@[n0 + k];
                    e.0@ == vs[k].name@ && e.1.0@ == ud.name@ && crate::ast::variant_same(e.1.1, vs[k])
                } by {
                    if k < i {
                        assert(self.variants@[n0 + k] == before[n0 + k]);
                    }
                }
            }
            i = i + 1;
        }
        proof {
            assert(!(exists|i: int| 0 <= i < vs.len() && #[trigger] variant_clashes(env0, vs, i)));
        }
        self.unions.push(ud);
        Ok(())
    }
}

// ---------------------------------------------------------------------------
// Inference environments

/// The inferred type of a declared field.
#[derive(Debug)]
pub struct FieldInfer {
    pub rust_name: String,
    pub ty: InferTy,
    pub span: Span,
}

/// Fields of records and of enum variants during inference.
#[derive(Debug)]
pub struct FieldInferEnv {
    pub structs: Vec<(String, Vec<FieldInfer>)>,
    pub variants: Vec<(String, Vec<FieldInfer>)>,
}

/// An overload's signature during inference.
#[derive(Debug)]
pub struct InferFnSig {
    pub params: Vec<InferTy>,
    pub ret: InferTy,
}

/// Functions by name during inference; one overload per arity.
#[derive(Debug)]
pub struct InferFnEnv {
    pub fns: Vec<(String, Vec<InferFnSig>)>,
}

fn clone_sig(s: &InferFnSig) -> (r: InferFnSig) {
    InferFnSig { params: clone_itys(&s.params), ret: clone_ity(&s.ret) }
}

/// `i` is the first entry of `entries` named `name`.
pub open spec fn first_entry<V>(entries: Seq<(String, V)>, name: Seq<char>, i: int) -> bool {
    &&& 0 <= i < entries.len()
    &&& entries[i].0@ == name
    &&& forall|j: int| 0 <= j < i ==> (#[trigger] entries[j]).0@ != name
}

/// The first entry named `name` has an overload of `n` parameters.
pub open spec fn infer_env_has(fns: Seq<(String, Vec<InferFnSig>)>, name: Seq<char>, n: nat) -> bool {
    exists|i: int| #[trigger] first_entry(fns, name, i) && has_infer_arity(fns[i].1@, n)
}

/// Adding an overload keeps every overload recorded and records the new one.
proof fn lemma_insert_keeps(before: Seq<(String, Vec<InferFnSig>)>, after: Seq<(String, Vec<InferFnSig>)>,
    name: Seq<char>, sig: InferFnSig)
    requires
        (exists|i: int| #[trigger] first_entry(before, name, i) && after.len() == before.len()
            && after[i].0 == before[i].0 && after[i].1@ == before[i].1@.push(sig)
            && forall|j: int| 0 <= j < before.len() && j != i ==> #[trigger] after[j] == before[j])
        || (!has_name(before, name) && after.len() == before.len() + 1 && after.drop_last() == before
            && after.last().0@ == name && after.last().1@ == seq![sig]),
    ensures
        forall|x: Seq<char>, n: nat| #[trigger] infer_env_has(before, x, n) ==> infer_env_has(after, x, n),
        infer_env_has(after, name, sig.params@.len()),
{
    assert forall|x: Seq<char>, k: int| #[trigger] first_entry(before, x, k) implies first_entry(after, x, k) by {
        assert forall|j: int| 0 <= j < k implies (#[trigger] after[j]).0@ != x by {
            if exists|i: int| #[trigger] first_entry(before, name, i) && after.len() == before.len()
                && after[i].0 == before[i].0 && after[i].1@ == before[i].1@.push(sig)
                && forall|j: int| 0 <= j < before.len() && j != i ==> #[trigger] after[j] == before[j] {
                assert(before[j].0@ != x);
            } else {
                assert(after[j] == after.drop_last()[j]);
            }
        }
        if !(exists|i: int| #[trigger] first_entry(before, name, i) && after.len() == before.len()
            && after[i].0 == before[i].0 && after[i].1@ == before[i].1@.push(sig)
            && forall|j: int| 0 <= j < before.len() && j != i ==> #[trigger] after[j] == before[j]) {
            assert(after[k] == after.drop_last()[k]);
        }
    }
    assert forall|x: Seq<char>, n: nat| #[trigger] infer_env_has(before, x, n) implies infer_env_has(after, x, n) by {
        let k = choose|k: int| #[trigger] first_entry(before, x, k) && has_infer_arity(before[k].1@, n);
        assert(first_entry(after, x, k));
        let m = choose|m: int| 0 <= m < before[k].1@.len() && (#[trigger] before[k].1@[m]).params@.len() == n;
        if exists|i: int| #[trigger] first_entry(before, name, i) && after.len() == before.len()
            && after[i].0 == before[i].0 && after[i].1@ == before[i].1@.push(sig)
            && forall|j: int| 0 <= j < before.len() && j != i ==> #[trigger] after[j] == before[j] {
            let i = choose|i: int| #[trigger] first_entry(before, name, i) && after.len() == before.len()
                && after[i].0 == before[i].0 && after[i].1@ == before[i].1@.push(sig)
                && forall|j: int| 0 <= j < before.len() && j != i ==> #[trigger] after[j] == before[j];
            if k == i {
                assert(after[k].1@[m] == before[k].1@[m]);
            } else {
                assert(after[k] == before[k]);
            }
        } else {
            assert(after[k] == after.drop_last()[k]);
        }
        assert(has_infer_arity(after[k].1@, n));
    }
    if exists|i: int| #[trigger] first_entry(before, name, i) && after.len() == before.len()
        && after[i].0 == before[i].0 && after[i].1@ == before[i].1@.push(sig)
        && forall|j: int| 0 <= j < before.len() && j != i ==> #[trigger] after[j] == before[j] {
        let i = choose|i: int| #[trigger] first_entry(before, name, i) && after.len() == before.len()
            && after[i].0 == before[i].0 && after[i].1@ == before[i].1@.push(sig)
            && forall|j: int| 0 <= j < before.len() && j != i ==> #[trigger] after[j] == before[j];
        assert(first_entry(after, name, i));
        assert(after[i].1@[before[i].1@.len() as int] == sig);
    } else {
        let m = after.len() - 1;
        assert forall|j: int| 0 <= j < m implies (#[trigger] after[j]).0@ != name by {
            assert(after[j] == after.drop_last()[j]);
        }
        assert(first_entry(after, name, m));
        assert(after[m].1@[0] == sig);
    }
}

/// A name that some entry has is the name of a first entry.
proof fn lemma_first_entry_exists<V>(s: Seq<(String, V)>, name: Seq<char>)
    requires
        has_name(s, name),
    ensures
        exists|i: int| #[trigger] first_entry(s, name, i),
    decreases s.len(),
{
    if s[0].0@ == name {
        assert(first_entry(s, name, 0));
    } else {
        let w = choose|w: int| 0 <= w < s.len() && (#[trigger] s[w]).0@ == name;
        assert(s.drop_first()[w - 1] == s[w]);
        lemma_first_entry_exists(s.drop_first(), name);
        let i = choose|i: int| #[trigger] first_entry(s.drop_first(), name, i);
        assert forall|j: int| 0 <= j < i + 1 implies (#[trigger] s[j]).0@ != name by {
            if j > 0 {
                assert(s[j] == s.drop_first()[j - 1]);
            }
        }
        assert(first_entry(s, name, i + 1));
    }
}

/// One of `sigs` has `arity` parameters.
pub open spec fn has_infer_arity(sigs: Seq<InferFnSig>, arity: nat) -> bool {
    exists|k: int| 0 <= k < sigs.len() && (#[trigger] sigs[k]).params@.len() == arity
}

fn find_entry<V>(entries: &Vec<(String, V)>, name: &str) -> (r: Option<usize>)
    ensures
        match r {
            Some(i) => i < entries@.len() && first_entry(entries@, name@, i as int),
            None => !has_name(entries@, name@),
        },
{
    let mut i: usize = 0;
    while i < entries.len()
        invariant
            i <= entries@.len(),
            forall|j: int| 0 <= j < i ==> (#[trigger] entries@[j]).0@ != name@,
        decreases entries@.len() - i,
    {
        if crate::text::str_is(entries[i].0.as_str(), name) {
            return Some(i);
        }
        i = i + 1;
    }
    None
}

impl InferFnEnv {
    /// An empty environment.
    pub fn new() -> (e: InferFnEnv) {
        InferFnEnv { fns: Vec::new() }
    }

    /// Adds an overload; fails when `name` has one of the same arity.
    pub fn insert(&mut self, name: String, sig: InferFnSig) -> (r: DslResult<()>)
        ensures
            forall|i: int| #[trigger] first_entry(old(self).fns@, name@, i) ==> {
                &&& has_infer_arity(old(self).fns@[i].1@, sig.params@.len()) ==> r is Err
                    && r->Err_0.message@ == dup_fn_message(name@, sig.params@.len())
                    && final(self).fns@ == old(self).fns@
                &&& !has_infer_arity(old(self).fns@[i].1@, sig.params@.len()) ==> r is Ok
                    && final(self).fns@.len() == old(self).fns@.len()
                    && final(self).fns@[i].0 == old(self).fns@[i].0
                    && final(self).fns@[i].1@ == old(self).fns@[i].1@.push(sig)
                    && forall|j: int| 0 <= j < old(self).fns@.len() && j != i ==> #[trigger] final(self).fns@[j] == old(self).fns@[j]
            },
            !has_name(old(self).fns@, name@) ==> r is Ok && final(self).fns@.len() == old(self).fns@.len() + 1
                && final(self).fns@.drop_last() == old(self).fns@ && final(self).fns@.last().0 == name
                && final(self).fns@.last().1@ == seq![sig],
    {
        let ghost sig0 = sig;
        let arity = sig.params.len();
        match find_entry(&self.fns, name.as_str()) {
            Some(i) => {
                proof {
                    assert forall|k: int| #[trigger] first_entry(old(self).fns@, name@, k) implies k == i by {
                        if k < i {
                            assert(old(self).fns@[k].0@ != name@);
                        } else if i < k {
                            assert(old(self).fns@[i as int].0@ != name@);
                        }
                    }
                }
                if has_sig_arity(&self.fns[i].1, arity) {
                    proof { reveal_strlit(""); }
                    let n = usize_to_string(arity);
                    let msg = concat3("duplicate function '", name.as_str(), "' with arity ");
                    let msg = concat3(msg.as_str(), n.as_str(), "");
                    return Err(Diag::from_message(msg));
                }
                let (n, mut v) = self.fns.remove(i);
                v.push(sig);
                self.fns.insert(i, (n, v));
                proof {
                    assert forall|k: int| #[trigger] first_entry(old(self).fns@, name@, k) implies k == i by {
                        if k < i {
                            assert(old(self).fns@[k].0@ != name@);
                        } else if i < k {
                            assert(old(self).fns@[i as int].0@ != name@);
                        }
                    }
                    assert forall|j: int| 0 <= j < old(self).fns@.len() && j != i implies
                        #[trigger] self.fns@[j] == old(self).fns@[j] by {
                        if j < i {
                        } else {
                        }
                    }
                }
                Ok(())
            },
            None => {
                let mut v: Vec<InferFnSig> = Vec::new();
                v.push(sig);
                self.fns.push((name, v));
                proof {
                    assert(self.fns@.drop_last() =~= old(self).fns@);
                    assert(self.fns@.last().1@ =~= seq![sig0]);
                    assert forall|k: int| !#[trigger] first_entry(old(self).fns@, name@, k) by {
                        if first_entry(old(self).fns@, name@, k) {
                            assert(old(self).fns@[k].0@ == name@);
                        }
                    }
                }
                Ok(())
            },
        }
    }

    /// The overloads of `name`, if it has any.
    pub fn get(&self, name: &str) -> (r: Option<&Vec<InferFnSig>>) {
        match find_entry(&self.fns, name) {
            Some(i) => Some(&self.fns[i].1),
            None => None,
        }
    }

    /// The overload of `name` with `arity` parameters.
    pub fn get_arity(&self, name: &str, arity: usize) -> (r: Option<&InferFnSig>)
        ensures
            r matches Some(s) ==> s.params@.len() == arity,
            r is Some <==> infer_env_has(self.fns@, name@, arity as nat),
    {
        proof {
            assert forall|i: int, k: int| #[trigger] first_entry(self.fns@, name@, i) && #[trigger] first_entry(self.fns@, name@, k)
                implies i == k by {
                if i < k {
                    assert(self.fns@[i].0@ != name@);
                } else if k < i {
                    assert(self.fns@[k].0@ != name@);
                }
            }
        }
        match find_entry(&self.fns, name) {
            Some(i) => first_sig_of_arity(&self.fns[i].1, arity),
            None => None,
        }
    }
}

fn has_sig_arity(sigs: &Vec<InferFnSig>, arity: usize) -> (b: bool)
    ensures
        b == has_infer_arity(sigs@, arity as nat),
{
    match first_sig_of_arity(sigs, arity) {
        Some(_) => true,
        None => false,
    }
}

fn first_sig_of_arity(sigs: &Vec<InferFnSig>, arity: usize) -> (r: Option<&InferFnSig>)
    ensures
        r matches Some(s) ==> s.params@.len() == arity && exists|k: int| 0 <= k < sigs@.len() && sigs@[k] == *s,
        r is None ==> !has_infer_arity(sigs@, arity as nat),
{
    let mut k: usize = 0;
    while k < sigs.len()
        invariant
            k <= sigs@.len(),
            forall|j: int| 0 <= j < k ==> (#[trigger] sigs@[j]).params@.len() != arity,
        decreases sigs@.len() - k,
    {
        if sigs[k].params.len() == arity {
            return Some(&sigs[k]);
        }
        k = k + 1;
    }
    None
}

/// A signature with its variables replaced by fresh ones.
pub fn instantiate_sig(ctx: &mut InferCtx, sig: &InferFnSig) -> (r: DslResult<InferFnSig>)
    requires
        old(ctx).wf(),
    ensures
        final(ctx).wf(),
        r matches Ok(s) ==> s.params@.len() == sig.params@.len(),
{
    let mut map: Vec<(u32, InferTy)> = Vec::new();
    let mut params: Vec<InferTy> = Vec::new();
    let mut i: usize = 0;
    while i < sig.params.len()
        invariant
            i <= sig.params@.len(),
            params@.len() == i,
            ctx.wf(),
        decreases sig.params@.len() - i,
    {
        match freshen_infer_ty(ctx, &sig.params[i], &mut map) {
            Ok(t) => params.push(t),
            Err(e) => return Err(e),
        }
        i = i + 1;
    }
    match freshen_infer_ty(ctx, &sig.ret, &mut map) {
        Ok(ret) => Ok(InferFnSig { params, ret }),
        Err(e) => Err(e),
    }
}

fn infer_fields(ctx: &mut InferCtx, fields: &Vec<Field>) -> (r: DslResult<Vec<FieldInfer>>)
    requires
        old(ctx).wf(),
    ensures
        final(ctx).wf(),
        r matches Ok(v) ==> v@.len() == fields@.len(),
{
    let mut out: Vec<FieldInfer> = Vec::new();
    let mut i: usize = 0;
    while i < fields.len()
        invariant
            i <= fields@.len(),
            out@.len() == i,
            ctx.wf(),
        decreases fields@.len() - i,
    {
        let f = &fields[i];
        match infer_from_ty(ctx, &f.ty) {
            Ok(t) => out.push(FieldInfer { rust_name: copy(&f.rust_name), ty: t, span: f.span }),
            Err(e) => return Err(e),
        }
        i = i + 1;
    }
    Ok(out)
}

fn check_extern_fields(owner_kind: &str, owner: &String, fields: &Vec<Field>) -> (r: DslResult<()>)
    ensures
        r is Ok <==> forall|j: int| 0 <= j < fields@.len() ==> !((#[trigger] fields@[j]).ty is Unknown),
        r matches Err(e) ==> exists|j: int| 0 <= j < fields@.len() && (#[trigger] fields@[j]).ty is Unknown
            && (forall|m: int| 0 <= m < j ==> !(#[trigger] fields@[m].ty is Unknown))
            && e.message@ == owner_kind@ + owner@ + "' must declare a type for field '"@ + fields@[j].name@ + "'"@
            && e.span == Some(fields@[j].span),
{
    let mut i: usize = 0;
    while i < fields.len()
        invariant
            i <= fields@.len(),
            forall|j: int| 0 <= j < i ==> !((#[trigger] fields@[j]).ty is Unknown),
        decreases fields@.len() - i,
    {
        if let Ty::Unknown = fields[i].ty {
            let msg = concat5(owner_kind, owner.as_str(), "' must declare a type for field '", fields[i].name.as_str(), "'");
            return Err(Diag::from_message(msg).with_span(fields[i].span));
        }
        i = i + 1;
    }
    Ok(())
}

/// Inference types for the fields of every record and variant; the
/// fields of extern types must all be declared.
pub fn build_field_infer_env(env: &TypeEnv, ctx: &mut InferCtx) -> (r: DslResult<FieldInferEnv>)
    requires
        old(ctx).wf(),
    ensures
        final(ctx).wf(),
{
    let mut structs: Vec<(String, Vec<FieldInfer>)> = Vec::new();
    let mut i: usize = 0;
    while i < env.structs.len()
        invariant
            i <= env.structs@.len(),
            ctx.wf(),
        decreases env.structs@.len() - i,
    {
        let sd = &env.structs[i];
        if sd.extern_ {
            if let Err(e) = check_extern_fields("extern struct '", &sd.name, &sd.fields) {
                return Err(e);
            }
        }
        match infer_fields(ctx, &sd.fields) {
            Ok(fs) => structs.push((copy(&sd.name), fs)),
            Err(e) => return Err(e),
        }
        i = i + 1;
    }
    let mut variants: Vec<(String, Vec<FieldInfer>)> = Vec::new();
    let mut u: usize = 0;
    while u < env.unions.len()
        invariant
            u <= env.unions@.len(),
            ctx.wf(),
        decreases env.unions@.len() - u,
    {
        let ud = &env.unions[u];
        if ud.extern_ {
            let mut k: usize = 0;
            while k < ud.variants.len()
                invariant
                    k <= ud.variants@.len(),
                    ctx.wf(),
                decreases ud.variants@.len() - k,
            {
                if let Err(e) = check_extern_fields("extern union '", &ud.name, &ud.variants[k].fields) {
                    return Err(e);
                }
                k = k + 1;
            }
        }
        let mut k: usize = 0;
        while k < ud.variants.len()
            invariant
                k <= ud.variants@.len(),
                ctx.wf(),
            decreases ud.variants@.len() - k,
        {
            let v = &ud.variants[k];
            match infer_fields(ctx, &v.fields) {
                Ok(fs) => variants.push((copy(&v.name), fs)),
                Err(e) => return Err(e),
            }
            k = k + 1;
        }
        u = u + 1;
    }
    Ok(FieldInferEnv { structs, variants })
}

// ---------------------------------------------------------------------------
// Checking a program

/// A checked program: its types (with inferred field types), its typed
/// functions and top-level values, and what later stages use.
#[derive(Debug)]
pub struct TypecheckedProgram {
    pub env: TypeEnv,
    pub typed_fns: Vec<TypedFn>,
    pub typed_defs: Vec<TypedDef>,
    pub fn_env: FnEnv,
    pub auto_clones: Vec<SpanKey>,
    pub warnings: Vec<Diag>,
}

impl TypecheckedProgram {
    /// Each function records the bounds of a type parameter in one entry.
    pub open spec fn bounds_wf(&self) -> bool {
        forall|i: int| 0 <= i < self.typed_fns@.len() ==> crate::bounds::ids_unique(
            #[trigger] self.typed_fns@[i].generic_bounds@)
    }
}

/// `n` is the Rust name of one of the top-level values among `tops`.
pub open spec fn is_def_name(tops: Seq<Top>, n: Seq<char>) -> bool {
    exists|i: int| 0 <= i < tops.len() && (#[trigger] tops[i]) is Def
        && n == crate::ast::rust_value_name_spec(tops[i]->Def_0.name@)
}

/// The Rust names of the top-level values (`def`s).
pub fn collect_def_base_names(tops: &Vec<Top>) -> (r: Vec<String>)
    ensures
        forall|i: int| 0 <= i < tops@.len() && (#[trigger] tops@[i]) is Def
            ==> crate::modules::listed(r@, crate::ast::rust_value_name_spec(tops@[i]->Def_0.name@)),
        forall|k: int| 0 <= k < r@.len() ==> is_def_name(tops@, (#[trigger] r@[k])@),
        forall|a: int, b: int| 0 <= a < b < r@.len() ==> (#[trigger] r@[a])@ != (#[trigger] r@[b])@,
{
    let mut out: Vec<String> = Vec::new();
    let mut i: usize = 0;
    while i < tops.len()
        invariant
            i <= tops@.len(),
            forall|j: int| 0 <= j < i && (#[trigger] tops@[j]) is Def
                ==> crate::modules::listed(out@, crate::ast::rust_value_name_spec(tops@[j]->Def_0.name@)),
            forall|k: int| 0 <= k < out@.len() ==> is_def_name(tops@, (#[trigger] out@[k])@),
            forall|a: int, b: int| 0 <= a < b < out@.len() ==> (#[trigger] out@[a])@ != (#[trigger] out@[b])@,
        decreases tops@.len() - i,
    {
        if let Top::Def(d) = &tops[i] {
            let n = rust_value_name_of(&d.name);
            if !contains_string(&out, &n) {
                let ghost prev = out@;
                out.push(n);
                proof {
                    assert(out@[out@.len() - 1] == n);
                    assert forall|j: int| 0 <= j <= i && (#[trigger] tops@[j]) is Def
                        implies crate::modules::listed(out@, crate::ast::rust_value_name_spec(tops@[j]->Def_0.name@)) by {
                        if j < i {
                            let k = choose|k: int| 0 <= k < prev.len() && (#[trigger] prev[k])@
                                == crate::ast::rust_value_name_spec(tops@[j]->Def_0.name@);
                            assert(out@[k] == prev[k]);
                        } else {
                            assert(out@[out@.len() - 1]@ == crate::ast::rust_value_name_spec(tops@[j]->Def_0.name@));
                        }
                    }
                    assert forall|k: int| 0 <= k < out@.len() implies is_def_name(tops@, (#[trigger] out@[k])@) by {
                        if k < prev.len() {
                            assert(out@[k] == prev[k]);
                        } else {
                            assert(tops@[i as int] is Def);
                        }
                    }
                }
            } else {
                proof {
                    assert forall|j: int| 0 <= j <= i && (#[trigger] tops@[j]) is Def
                        implies crate::modules::listed(out@, crate::ast::rust_value_name_spec(tops@[j]->Def_0.name@)) by {
                        if j == i {
                            let k = choose|k: int| 0 <= k < out@.len() && (#[trigger] out@[k])@ == n@;
                            assert(out@[k]@ == n@);
                        }
                    }
                }
            }
        }
        i = i + 1;
    }
    out
}

pub(crate) fn contains_string(v: &Vec<String>, s: &String) -> (b: bool)
    ensures
        b == exists|i: int| 0 <= i < v@.len() && (#[trigger] v@[i])@ == s@,
{
    let mut i: usize = 0;
    while i < v.len()
        invariant
            i <= v@.len(),
            forall|j: int| 0 <= j < i ==> (#[trigger] v@[j])@ != s@,
        decreases v@.len() - i,
    {
        if v[i] == *s {
            return true;
        }
        i = i + 1;
    }
    false
}

/// The first parameter whose Rust name repeats an earlier one, or else
/// that is a top-level value's name.
pub open spec fn param_binding_error(params: Seq<Param>, defs: Seq<String>) -> Option<(int, bool)>
    decreases params.len(),
{
    if params.len() == 0 {
        None
    } else {
        match param_binding_error(params.drop_last(), defs) {
            Some(x) => Some(x),
            None => {
                let k = params.len() - 1;
                let p = params[k];
                if exists|j: int| 0 <= j < k && (#[trigger] params[j]).rust_name@ == p.rust_name@ {
                    Some((k, true))
                } else if exists|j: int| 0 <= j < defs.len() && (#[trigger] defs[j])@ == p.rust_name@ {
                    Some((k, false))
                } else {
                    None
                }
            },
        }
    }
}

/// Parameters must have distinct Rust names and must not shadow a
/// top-level value.
pub fn check_param_bindings(f: &FnDef, def_base_names: &Vec<String>) -> (r: DslResult<()>)
    ensures
        match param_binding_error(f.params@, def_base_names@) {
            None => r is Ok,
            Some((k, dup)) => r is Err && r->Err_0.span == Some(f.params@[k].span) && r->Err_0.message@ == (if dup {
                "duplicate parameter '"@ + f.params@[k].name@ + "'"@
            } else {
                "parameter '"@ + f.params@[k].name@ + "' shadows a def name"@
            }),
        },
{
    let ps = &f.params;
    let mut i: usize = 0;
    while i < ps.len()
        invariant
            i <= ps@.len(),
            ps@ == f.params@,
            param_binding_error(ps@.subrange(0, i as int), def_base_names@) is None,
        decreases ps@.len() - i,
    {
        let p = &ps[i];
        let ghost pre = ps@.subrange(0, i as int);
        let ghost next = ps@.subrange(0, i + 1);
        proof {
            assert(next.drop_last() =~= pre);
        }
        let mut dup = false;
        let mut j: usize = 0;
        while j < i
            invariant
                j <= i < ps@.len(),
                dup == exists|k: int| 0 <= k < j && (#[trigger] ps@[k]).rust_name@ == ps@[i as int].rust_name@,
            decreases i - j,
        {
            if ps[j].rust_name == ps[i].rust_name {
                dup = true;
            }
            proof {
                assert(ps@[j as int] == ps@[j as int]);
            }
            j = j + 1;
        }
        proof {
            assert forall|k: int| 0 <= k < i implies next[k] == #[trigger] ps@[k] by {}
            if dup {
                let k = choose|k: int| 0 <= k < i && (#[trigger] ps@[k]).rust_name@ == ps@[i as int].rust_name@;
                assert(next[k].rust_name@ == next[i as int].rust_name@);
            } else {
                assert forall|k: int| 0 <= k < i implies (#[trigger] next[k]).rust_name@ != next[i as int].rust_name@ by {
                    assert(next[k] == ps@[k]);
                }
            }
        }
        if dup {
            let msg = concat3("duplicate parameter '", p.name.as_str(), "'");
            proof {
                assert(param_binding_error(next, def_base_names@) == Some((i as int, true)));
                lemma_param_error_prefix(ps@, def_base_names@, i + 1);
            }
            return Err(Diag::from_message(msg).with_span(p.span));
        }
        if contains_string(def_base_names, &p.rust_name) {
            let msg = concat3("parameter '", p.name.as_str(), "' shadows a def name");
            proof {
                let w = choose|w: int| 0 <= w < def_base_names@.len() && (#[trigger] def_base_names@[w])@ == p.rust_name@;
                assert(def_base_names@[w]@ == next[i as int].rust_name@);
                assert(param_binding_error(next, def_base_names@) == Some((i as int, false)));
                lemma_param_error_prefix(ps@, def_base_names@, i + 1);
            }
            return Err(Diag::from_message(msg).with_span(p.span));
        }
        i = i + 1;
    }
    proof {
        assert(ps@.subrange(0, ps@.len() as int) =~= ps@);
    }
    Ok(())
}

/// An error found in a prefix is the error of the whole list.
proof fn lemma_param_error_prefix(params: Seq<Param>, defs: Seq<String>, n: int)
    requires
        0 <= n <= params.len(),
        param_binding_error(params.subrange(0, n), defs) is Some,
    ensures
        param_binding_error(params, defs) == param_binding_error(params.subrange(0, n), defs),
    decreases params.len() - n,
{
    if n < params.len() {
        let next = params.subrange(0, n + 1);
        assert(next.drop_last() =~= params.subrange(0, n));
        assert(param_binding_error(next, defs) == param_binding_error(params.subrange(0, n), defs));
        lemma_param_error_prefix(params, defs, n + 1);
    } else {
        assert(params.subrange(0, n) =~= params);
    }
}

/// `x` comes before `y` in character order: at the first position where
/// they differ the character of `x` is smaller, or `x` is a proper prefix.
pub open spec fn chars_lt(x: Seq<char>, y: Seq<char>) -> bool
    decreases x.len(),
{
    if x.len() == 0 {
        y.len() > 0
    } else if y.len() == 0 {
        false
    } else if x[0] != y[0] {
        x[0] < y[0]
    } else {
        chars_lt(x.drop_first(), y.drop_first())
    }
}

/// Whether `a` comes before `b` in character order.
pub fn string_lt(a: &String, b: &String) -> (r: bool)
    ensures
        r == chars_lt(a@, b@),
{
    let x = crate::text::string_chars(a);
    let y = crate::text::string_chars(b);
    let mut i: usize = 0;
    proof {
        assert(x@.skip(0) =~= x@);
        assert(y@.skip(0) =~= y@);
    }
    while i < x.len() && i < y.len()
        invariant
            i <= x@.len(),
            i <= y@.len(),
            x@ == a@,
            y@ == b@,
            chars_lt(a@, b@) == chars_lt(x@.skip(i as int), y@.skip(i as int)),
        decreases x@.len() - i,
    {
        proof {
            assert(x@.skip(i as int).drop_first() =~= x@.skip(i + 1));
            assert(y@.skip(i as int).drop_first() =~= y@.skip(i + 1));
        }
        if x[i] < y[i] {
            return true;
        }
        if x[i] > y[i] {
            return false;
        }
        i = i + 1;
    }
    x.len() < y.len()
}

/// Inserts `s` into the sorted list `v` unless it is there. The list is
/// walked to the first entry that is `s` or that `s` comes before: at an
/// equal entry nothing changes, else `s` goes in there (or at the end).
/// `i` is where `s` meets the list `v`: the first entry equal to `s` or
/// that `s` comes before, or the end.
pub open spec fn insert_point(v: Seq<String>, s: Seq<char>, i: int) -> bool {
    &&& 0 <= i <= v.len()
    &&& forall|j: int| 0 <= j < i ==> (#[trigger] v[j])@ != s && !chars_lt(s, v[j]@)
    &&& i < v.len() ==> v[i]@ == s || chars_lt(s, v[i]@)
}

fn insert_sorted(v: &mut Vec<String>, s: &String)
    ensures
        exists|i: int| #[trigger] insert_point(old(v)@, s@, i)
            && (i < old(v)@.len() && old(v)@[i]@ == s@ ==> final(v)@ == old(v)@)
            && (i < old(v)@.len() && old(v)@[i]@ != s@ ==> chars_lt(s@, old(v)@[i]@)
                && crate::modules::names_view(final(v)@) == crate::modules::names_view(old(v)@).insert(i, s@))
            && (i == old(v)@.len() ==> crate::modules::names_view(final(v)@)
                == crate::modules::names_view(old(v)@).insert(i, s@)),
{
    let ghost v0 = v@;
    let mut i: usize = 0;
    while i < v.len()
        invariant
            i <= v@.len(),
            v@ == v0,
            v0 == old(v)@,
            forall|j: int| 0 <= j < i ==> (#[trigger] v0[j])@ != s@ && !chars_lt(s@, v0[j]@),
        decreases v@.len() - i,
    {
        if v[i] == *s {
            assert(insert_point(v0, s@, i as int));
            return;
        }
        if string_lt(s, &v[i]) {
            assert(insert_point(v0, s@, i as int));
            let c = copy(s);
            v.insert(i, c);
            proof {
                assert(crate::modules::names_view(v@) =~= crate::modules::names_view(v0).insert(i as int, s@));
            }
            return;
        }
        i = i + 1;
    }
    assert(insert_point(v0, s@, i as int));
    let c = copy(s);
    v.push(c);
    proof {
        assert(crate::modules::names_view(v@) =~= crate::modules::names_view(v0).insert(v0.len() as int, s@));
    }
}

fn join_strings(v: &Vec<String>) -> (r: String) {
    let mut s = String::new();
    let mut i: usize = 0;
    while i < v.len()
        invariant
            i <= v@.len(),
        decreases v@.len() - i,
    {
        if i > 0 {
            s.append(", ");
        }
        s.append(v[i].as_str());
        i = i + 1;
    }
    s
}

/// The `(variable, field)` pairs of `v.field` accesses, looking through
/// field accesses and call arguments only.
pub fn collect_field_constraints(expr: &Expr, out: &mut Vec<(String, String)>)
    decreases expr,
{
    match expr {
        Expr::Field { base, field, .. } => {
            if let Expr::Var(v, _) = &**base {
                out.push((copy(v), copy(field)));
            }
            collect_field_constraints(base, out);
        },
        Expr::Call { args, .. } => collect_field_constraints_all(args, out),
        _ => {},
    }
}

fn collect_field_constraints_all(args: &Vec<Expr>, out: &mut Vec<(String, String)>)
    decreases args,
{
    let mut i: usize = 0;
    while i < args.len()
        invariant
            i <= args@.len(),
        decreases args@.len() - i,
    {
        collect_field_constraints(&args[i], out);
        i = i + 1;
    }
}

fn lookup_ty(vars: &Vec<(String, InferTy)>, name: &String) -> (r: Option<InferTy>) {
    let mut i: usize = 0;
    while i < vars.len()
        invariant
            i <= vars@.len(),
        decreases vars@.len() - i,
    {
        if vars[i].0 == *name {
            return Some(clone_ity(&vars[i].1));
        }
        i = i + 1;
    }
    None
}

fn lookup_span(spans: &Vec<(String, Span)>, name: &String, default: Span) -> (r: Span) {
    let mut i: usize = 0;
    while i < spans.len()
        invariant
            i <= spans@.len(),
        decreases spans@.len() - i,
    {
        if spans[i].0 == *name {
            return spans[i].1;
        }
        i = i + 1;
    }
    default
}

/// Whether the record `sd` has a field whose Rust name is `n`.
pub open spec fn has_field_named(sd: StructDef, n: Seq<char>) -> bool {
    exists|k: int| 0 <= k < sd.fields@.len() && (#[trigger] sd.fields@[k]).rust_name@ == n
}

/// The position of the first of `fields` that `sd` lacks, if any.
fn struct_has_fields(sd: &StructDef, fields: &Vec<String>) -> (r: Option<usize>)
    ensures
        r matches Some(i) ==> i < fields@.len() && !has_field_named(*sd, fields@[i as int]@)
            && forall|j: int| 0 <= j < i ==> has_field_named(*sd, (#[trigger] fields@[j])@),
        r is None ==> forall|j: int| 0 <= j < fields@.len() ==> has_field_named(*sd, (#[trigger] fields@[j])@),
{
    let mut i: usize = 0;
    while i < fields.len()
        invariant
            i <= fields@.len(),
            forall|j: int| 0 <= j < i ==> has_field_named(*sd, (#[trigger] fields@[j])@),
        decreases fields@.len() - i,
    {
        let mut found = false;
        let mut k: usize = 0;
        while k < sd.fields.len()
            invariant
                k <= sd.fields@.len(),
                i < fields@.len(),
                found == exists|m: int| 0 <= m < k && (#[trigger] sd.fields@[m]).rust_name@ == fields@[i as int]@,
            decreases sd.fields@.len() - k,
        {
            if sd.fields[k].rust_name == fields[i] {
                found = true;
            }
            k = k + 1;
        }
        if !found {
            return Some(i);
        }
        i = i + 1;
    }
    None
}

/// `i` is the first record of `env` named `name`.
pub open spec fn first_struct(env: TypeEnv, name: Seq<char>, i: int) -> bool {
    &&& 0 <= i < env.structs@.len()
    &&& env.structs@[i].name@ == name
    &&& forall|j: int| 0 <= j < i ==> (#[trigger] env.structs@[j]).name@ != name
}

fn find_struct<'a>(env: &'a TypeEnv, name: &String) -> (r: Option<&'a StructDef>)
    ensures
        r matches Some(sd) ==> exists|i: int| first_struct(*env, name@, i) && env.structs@[i] == *sd,
        r is None ==> forall|i: int| 0 <= i < env.structs@.len() ==> (#[trigger] env.structs@[i]).name@ != name@,
{
    let mut i: usize = 0;
    while i < env.structs.len()
        invariant
            i <= env.structs@.len(),
            forall|j: int| 0 <= j < i ==> (#[trigger] env.structs@[j]).name@ != name@,
        decreases env.structs@.len() - i,
    {
        if env.structs[i].name == *name {
            return Some(&env.structs[i]);
        }
        i = i + 1;
    }
    None
}

fn check_struct_fields(env: &TypeEnv, ty_name: &String, fields: &Vec<String>, psp: Span) -> (r: DslResult<()>)
    ensures
        (forall|i: int| 0 <= i < env.structs@.len() ==> (#[trigger] env.structs@[i]).name@ != ty_name@) ==> r is Err
            && r->Err_0.message@ == "unknown type '"@ + ty_name@ + "'"@ && r->Err_0.span == Some(psp),
        forall|i: int| #[trigger] first_struct(*env, ty_name@, i) ==> {
            &&& r is Ok <==> forall|j: int| 0 <= j < fields@.len() ==> has_field_named(env.structs@[i], (#[trigger] fields@[j])@)
            &&& r matches Err(e) ==> e.span == Some(psp) && exists|j: int| 0 <= j < fields@.len()
                && !has_field_named(env.structs@[i], (#[trigger] fields@[j])@)
                && e.message@ == "type '"@ + ty_name@ + "' has no field '"@ + fields@[j]@ + "'"@
        },
{
    let sd = match find_struct(env, ty_name) {
        Some(sd) => sd,
        None => {
            let msg = concat3("unknown type '", ty_name.as_str(), "'");
            return Err(Diag::from_message(msg).with_span(psp));
        },
    };
    proof {
        let i0 = choose|i: int| first_struct(*env, ty_name@, i) && env.structs@[i] == *sd;
        assert forall|i: int| #[trigger] first_struct(*env, ty_name@, i) implies i == i0 by {
            if i < i0 {
                assert(env.structs@[i].name@ != ty_name@);
            } else if i0 < i {
                assert(env.structs@[i0].name@ != ty_name@);
            }
        }
    }
    match struct_has_fields(sd, fields) {
        Some(i) => {
            let msg = concat5("type '", ty_name.as_str(), "' has no field '", fields[i].as_str(), "'");
            Err(Diag::from_message(msg).with_span(psp))
        },
        None => Ok(()),
    }
}

/// Fields accessed on an unannotated parameter decide its record type:
/// the one record that has them all. A parameter already known to be a
/// record (or a vector of records) must have the fields.
pub fn apply_param_field_constraints(env: &TypeEnv, f: &FnDef, param_tys: &Vec<(String, InferTy)>, param_spans: &Vec<(String, Span)>, ctx: &mut InferCtx) -> (r: DslResult<()>)
    requires
        old(ctx).wf(),
    ensures
        final(ctx).wf(),
{
    let mut seen: Vec<(String, String)> = Vec::new();
    collect_field_constraints(&f.body, &mut seen);
    let mut names: Vec<String> = Vec::new();
    let mut i: usize = 0;
    while i < seen.len()
        invariant
            i <= seen@.len(),
        decreases seen@.len() - i,
    {
        insert_sorted(&mut names, &seen[i].0);
        i = i + 1;
    }
    let mut n: usize = 0;
    while n < names.len()
        invariant
            n <= names@.len(),
            ctx.wf(),
        decreases names@.len() - n,
    {
        let p = &names[n];
        let mut fields: Vec<String> = Vec::new();
        let mut k: usize = 0;
        while k < seen.len()
            invariant
                k <= seen@.len(),
            decreases seen@.len() - k,
        {
            if seen[k].0 == *p {
                insert_sorted(&mut fields, &seen[k].1);
            }
            k = k + 1;
        }
        let pty = match lookup_ty(param_tys, p) {
            Some(t) => t,
            None => {
                let msg = concat3("unknown variable '", p.as_str(), "'");
                return Err(Diag::from_message(msg).with_span(f.body.span()));
            },
        };
        let psp = lookup_span(param_spans, p, f.body.span());
        let cur = ctx.resolve(&pty);
        let settled = match &cur {
            InferTy::Named(ty_name) => match check_struct_fields(env, ty_name, &fields, psp) {
                Ok(()) => true,
                Err(e) => return Err(e),
            },
            InferTy::Vec(inner) => {
                let ty_name = match &**inner {
                    InferTy::Named(nm) => copy(nm),
                    InferTy::Var(_) => return Err(Diag::new("cannot access field on unknown vector type").with_span(psp)),
                    InferTy::Vec(_) => return Err(Diag::new("cannot access field on nested vector type").with_span(psp)),
                    _ => return Err(Diag::new("cannot access field on non-struct vector type").with_span(psp)),
                };
                match check_struct_fields(env, &ty_name, &fields, psp) {
                    Ok(()) => true,
                    Err(e) => return Err(e),
                }
            },
            InferTy::Var(_) => false,
            _ => return Err(Diag::new("cannot access field on non-struct type").with_span(psp)),
        };
        if !settled {
            let mut candidates: Vec<String> = Vec::new();
            let mut si: usize = 0;
            while si < env.structs.len()
                invariant
                    si <= env.structs@.len(),
                decreases env.structs@.len() - si,
            {
                if struct_has_fields(&env.structs[si], &fields).is_none() {
                    insert_sorted(&mut candidates, &env.structs[si].name);
                }
                si = si + 1;
            }
            if candidates.len() == 0 {
                let set = join_strings(&fields);
                let msg = concat5("cannot infer type for '", p.as_str(), "': no known struct contains fields {", set.as_str(), "}");
                return Err(Diag::from_message(msg).with_span(psp));
            }
            if candidates.len() > 1 {
                let list = join_strings(&candidates);
                let head = concat5("ambiguous type for '", p.as_str(), "': matches ", list.as_str(), ". Add annotation like ");
                let msg = concat5(head.as_str(), p.as_str(), ":", candidates[0].as_str(), "");
                return Err(Diag::from_message(msg).with_span(psp));
            }
            let target = InferTy::Named(copy(&candidates[0]));
            if let Err(e) = ctx.unify(&pty, &target, psp) {
                return Err(e);
            }
        }
        n = n + 1;
    }
    Ok(())
}

/// Whether a type mentions a generic parameter.
pub open spec fn has_generic(t: Ty) -> bool
    decreases t,
{
    match t {
        Ty::Generic(_) => true,
        Ty::Vec(x) => has_generic(*x),
        Ty::SetOf(x) => has_generic(*x),
        Ty::Option(x) => has_generic(*x),
        Ty::Result(x, y) => has_generic(*x) || has_generic(*y),
        Ty::MapOf(_, x, y) => has_generic(*x) || has_generic(*y),
        Ty::Union(xs) => exists|i: int| 0 <= i < xs@.len() && has_generic(#[trigger] xs@[i]),
        Ty::Named(_) => false,
        Ty::Unknown => false,
    }
}

/// Decides `has_generic`.
pub fn ty_contains_generic(t: &Ty) -> (b: bool)
    ensures
        b == has_generic(*t),
    decreases t,
{
    match t {
        Ty::Generic(_) => true,
        Ty::Vec(x) => ty_contains_generic(x),
        Ty::SetOf(x) => ty_contains_generic(x),
        Ty::Option(x) => ty_contains_generic(x),
        Ty::Result(x, y) => ty_contains_generic(x) || ty_contains_generic(y),
        Ty::MapOf(_, x, y) => ty_contains_generic(x) || ty_contains_generic(y),
        Ty::Union(xs) => any_generic(xs),
        Ty::Named(_) => false,
        Ty::Unknown => false,
    }
}

fn any_generic(xs: &Vec<Ty>) -> (b: bool)
    ensures
        b == exists|i: int| 0 <= i < xs@.len() && has_generic(#[trigger] xs@[i]),
    decreases xs,
{
    let mut i: usize = 0;
    while i < xs.len()
        invariant
            i <= xs@.len(),
            forall|j: int| 0 <= j < i ==> !has_generic(#[trigger] xs@[j]),
        decreases xs@.len() - i,
    {
        if ty_contains_generic(&xs[i]) {
            return true;
        }
        i = i + 1;
    }
    false
}

/// Exported functions other than `main` must have fully known parameter
/// and return types.
pub fn enforce_export_signatures(typed_fns: &Vec<TypedFn>) -> (r: DslResult<()>) {
    let mut i: usize = 0;
    while i < typed_fns.len()
        invariant
            i <= typed_fns@.len(),
        decreases typed_fns@.len() - i,
    {
        let f = &typed_fns[i];
        if f.def.exported && !crate::text::is_lit(&f.def.rust_name, "main") {
            let mut k: usize = 0;
            while k < f.param_tys.len()
                invariant
                    k <= f.param_tys@.len(),
                decreases f.param_tys@.len() - k,
            {
                if ty_contains_generic(&f.param_tys[k].1) {
                    let msg = concat3("export requires explicit types; parameter '", f.param_tys[k].0.as_str(), "' is not fully known");
                    return Err(Diag::from_message(msg).with_span(f.def.span));
                }
                k = k + 1;
            }
            if ty_contains_generic(&f.body.ty) {
                return Err(Diag::new("export requires explicit types; return type is not fully known").with_span(f.def.span));
            }
        }
        i = i + 1;
    }
    Ok(())
}

/// `v` holds a string spelled `s`.
pub open spec fn has_name_str(v: Seq<String>, s: Seq<char>) -> bool {
    exists|i: int| 0 <= i < v.len() && (#[trigger] v[i])@ == s
}

/// Every string `a` holds, `b` holds too.
pub open spec fn keeps_names(a: Seq<String>, b: Seq<String>) -> bool {
    forall|s: Seq<char>| #[trigger] has_name_str(a, s) ==> has_name_str(b, s)
}

proof fn lemma_insert_names(a: Seq<String>, b: Seq<String>, s: Seq<char>, i: int)
    requires
        0 <= i <= a.len(),
        crate::modules::names_view(b) == crate::modules::names_view(a).insert(i, s),
    ensures
        keeps_names(a, b),
        has_name_str(b, s),
{
    let na = crate::modules::names_view(a);
    let nb = crate::modules::names_view(b);
    assert(nb.len() == b.len());
    assert(nb[i] == s);
    assert(b[i]@ == nb[i]);
    assert forall|t: Seq<char>| #[trigger] has_name_str(a, t) implies has_name_str(b, t) by {
        let k = choose|k: int| 0 <= k < a.len() && (#[trigger] a[k])@ == t;
        assert(na[k] == a[k]@);
        if k < i {
            assert(nb[k] == na[k]);
            assert(b[k]@ == nb[k]);
        } else {
            assert(nb[k + 1] == na[k]);
            assert(b[k + 1]@ == nb[k + 1]);
        }
    }
}

/// The names bound by `let!` assignments in an expression. The names
/// already in `out` stay.
pub fn collect_mutated_vars(expr: &Expr, out: &mut Vec<String>)
    ensures
        keeps_names(old(out)@, final(out)@),
        *expr matches Expr::Assign { name, .. } ==> has_name_str(final(out)@, name@),
        *expr is Var || *expr is Int || *expr is Str || *expr is Bool || *expr is Continue ==> final(out)@ == old(out)@,
    decreases expr,
{
    match expr {
        Expr::Assign { name, expr: inner, .. } => {
            if !contains_string(out, name) {
                let ghost before = out@;
                insert_sorted(out, name);
                proof {
                    let i = choose|i: int| #[trigger] insert_point(before, name@, i)
                        && (i < before.len() && before[i]@ == name@ ==> out@ == before)
                        && (i < before.len() && before[i]@ != name@ ==> chars_lt(name@, before[i]@)
                            && crate::modules::names_view(out@) == crate::modules::names_view(before).insert(i, name@))
                        && (i == before.len() ==> crate::modules::names_view(out@)
                            == crate::modules::names_view(before).insert(i, name@));
                    lemma_insert_names(before, out@, name@, i);
                }
            }
            assert(has_name_str(out@, name@));
            collect_mutated_vars(inner, out);
        },
        Expr::Let { bindings, body, .. } => {
            collect_mutated_bindings(bindings, out);
            collect_mutated_vars(body, out);
        },
        Expr::Lambda { body, .. } => collect_mutated_vars(body, out),
        Expr::Call { args, .. } => collect_mutated_all(args, out),
        Expr::CallDyn { func, args, .. } => {
            collect_mutated_vars(func, out);
            collect_mutated_all(args, out);
        },
        Expr::MethodCall { base, args, .. } => {
            collect_mutated_vars(base, out);
            collect_mutated_all(args, out);
        },
        Expr::Do { exprs, .. } => collect_mutated_all(exprs, out),
        Expr::If { cond, then_br, else_br, .. } => {
            collect_mutated_vars(cond, out);
            collect_mutated_vars(then_br, out);
            if let Some(eb) = else_br {
                collect_mutated_vars(eb, out);
            }
        },
        Expr::Loop { body, .. } => collect_mutated_vars(body, out),
        Expr::While { body, .. } => collect_mutated_vars(body, out),
        Expr::For { iter, body, .. } => {
            if let crate::ast::Iterable::Expr(ex) = iter {
                collect_mutated_vars(ex, out);
            }
            collect_mutated_vars(body, out);
        },
        Expr::Match { scrutinee, arms, .. } => {
            collect_mutated_vars(scrutinee, out);
            collect_mutated_arms(arms, out);
        },
        Expr::VecLit { elems, .. } => collect_mutated_all(elems, out),
        Expr::SetLit { elems, .. } => collect_mutated_all(elems, out),
        Expr::MapLit { entries, .. } => collect_mutated_entries(entries, out),
        Expr::Pair { key, val, .. } => {
            collect_mutated_vars(key, out);
            collect_mutated_vars(val, out);
        },
        Expr::Break { value, .. } => {
            if let Some(v) = value {
                collect_mutated_vars(v, out);
            }
        },
        Expr::Ascribe { expr: inner, .. } => collect_mutated_vars(inner, out),
        Expr::Cast { expr: inner, .. } => collect_mutated_vars(inner, out),
        Expr::Field { base, .. } => collect_mutated_vars(base, out),
        _ => {},
    }
}

fn collect_mutated_all(xs: &Vec<Expr>, out: &mut Vec<String>)
    ensures
        keeps_names(old(out)@, final(out)@),
    decreases xs,
{
    let mut i: usize = 0;
    while i < xs.len()
        invariant
            i <= xs@.len(),
            keeps_names(old(out)@, out@),
        decreases xs@.len() - i,
    {
        collect_mutated_vars(&xs[i], out);
        i = i + 1;
    }
}

fn collect_mutated_bindings(bs: &Vec<crate::ast::LetBinding>, out: &mut Vec<String>)
    ensures
        keeps_names(old(out)@, final(out)@),
    decreases bs,
{
    let mut i: usize = 0;
    while i < bs.len()
        invariant
            i <= bs@.len(),
            keeps_names(old(out)@, out@),
        decreases bs@.len() - i,
    {
        collect_mutated_vars(&bs[i].expr, out);
        i = i + 1;
    }
}

fn collect_mutated_arms(arms: &Vec<crate::ast::MatchArm>, out: &mut Vec<String>)
    ensures
        keeps_names(old(out)@, final(out)@),
    decreases arms,
{
    let mut i: usize = 0;
    while i < arms.len()
        invariant
            i <= arms@.len(),
            keeps_names(old(out)@, out@),
        decreases arms@.len() - i,
    {
        collect_mutated_vars(&arms[i].body, out);
        i = i + 1;
    }
}

fn collect_mutated_entries(es: &Vec<(Expr, Expr)>, out: &mut Vec<String>)
    ensures
        keeps_names(old(out)@, final(out)@),
    decreases es,
{
    let mut i: usize = 0;
    while i < es.len()
        invariant
            i <= es@.len(),
            keeps_names(old(out)@, out@),
        decreases es@.len() - i,
    {
        collect_mutated_vars(&es[i].0, out);
        collect_mutated_vars(&es[i].1, out);
        i = i + 1;
    }
}

/// The variable ids in a resolved inference type.
/// `after` extends `before`: its entries are kept in place, and the ones
/// added are variables for which `m` holds.
pub open spec fn ids_extend(before: Seq<u32>, after: Seq<u32>) -> bool {
    &&& before.len() <= after.len()
    &&& forall|k: int| 0 <= k < before.len() ==> #[trigger] after[k] == before[k]
}

/// What a list holds stays when it is extended.
proof fn lemma_extend_contains(a: Seq<u32>, b: Seq<u32>)
    requires
        ids_extend(a, b),
    ensures
        forall|x: u32| a.contains(x) ==> #[trigger] b.contains(x),
{
    assert forall|x: u32| a.contains(x) implies #[trigger] b.contains(x) by {
        let k = choose|k: int| 0 <= k < a.len() && a[k] == x;
        assert(b[k] == a[k]);
    }
}

pub fn collect_infer_var_ids(t: &InferTy, out: &mut Vec<u32>)
    ensures
        ids_extend(old(out)@, final(out)@),
        forall|id: u32| crate::infer::mentions(*t, id) ==> #[trigger] final(out)@.contains(id),
        forall|k: int| old(out)@.len() <= k < final(out)@.len() ==> crate::infer::mentions(*t, #[trigger] final(out)@[k]),
    decreases t,
{
    match t {
        InferTy::Var(id) => {
            if !contains_u32(out, *id) {
                out.push(*id);
                assert(out@[out@.len() - 1] == *id);
            }
            assert(out@.contains(*id));
            assert(forall|x: u32| crate::infer::mentions(*t, x) ==> x == *id);
        },
        InferTy::Named(_) => {},
        InferTy::Vec(x) => {
            collect_infer_var_ids(x, out);
        },
        InferTy::SetOf(x) => {
            collect_infer_var_ids(x, out);
        },
        InferTy::Option(x) => {
            collect_infer_var_ids(x, out);
        },
        InferTy::Result(x, y) => {
            collect_infer_var_ids(x, out);
            let ghost mid = out@;
            collect_infer_var_ids(y, out);
            proof { lemma_extend_contains(mid, out@); }
        },
        InferTy::MapOf(_, x, y) => {
            collect_infer_var_ids(x, out);
            let ghost mid = out@;
            collect_infer_var_ids(y, out);
            proof { lemma_extend_contains(mid, out@); }
        },
        InferTy::Fn(ps, r) => {
            collect_infer_var_ids_all(ps, out);
            let ghost mid = out@;
            collect_infer_var_ids(r, out);
            proof {
                lemma_extend_contains(mid, out@);
                assert forall|id: u32| crate::infer::mentions(*t, id) implies out@.contains(id) by {
                    if !crate::infer::mentions(**r, id) {
                        let i = choose|i: int| 0 <= i < ps@.len() && crate::infer::mentions(#[trigger] ps@[i], id);
                        assert(crate::infer::mentions(ps@[i], id));
                    }
                }
                assert forall|k: int| old(out)@.len() <= k < out@.len() implies crate::infer::mentions(*t, #[trigger] out@[k]) by {
                    if k < mid.len() {
                        assert(out@[k] == mid[k]);
                        let i = choose|i: int| 0 <= i < ps@.len() && crate::infer::mentions(#[trigger] ps@[i], mid[k]);
                    }
                }
            }
        },
    }
}

/// One of `ts` mentions the variable `id`.
pub open spec fn mentioned_in(ts: Seq<InferTy>, id: u32) -> bool {
    exists|i: int| 0 <= i < ts.len() && crate::infer::mentions(#[trigger] ts[i], id)
}

fn collect_infer_var_ids_all(ts: &Vec<InferTy>, out: &mut Vec<u32>)
    ensures
        ids_extend(old(out)@, final(out)@),
        forall|id: u32, i: int| 0 <= i < ts@.len() && #[trigger] crate::infer::mentions(ts@[i], id) ==> final(out)@.contains(id),
        forall|k: int| old(out)@.len() <= k < final(out)@.len() ==> mentioned_in(ts@, #[trigger] final(out)@[k]),
    decreases ts,
{
    let mut i: usize = 0;
    while i < ts.len()
        invariant
            i <= ts@.len(),
            ids_extend(old(out)@, out@),
            forall|id: u32, j: int| 0 <= j < i && #[trigger] crate::infer::mentions(ts@[j], id) ==> out@.contains(id),
            forall|k: int| old(out)@.len() <= k < out@.len() ==> mentioned_in(ts@, #[trigger] out@[k]),
        decreases ts@.len() - i,
    {
        let ghost before = out@;
        collect_infer_var_ids(&ts[i], out);
        proof {
            assert forall|id: u32, j: int| 0 <= j <= i && #[trigger] crate::infer::mentions(ts@[j], id)
                implies out@.contains(id) by {
                if j < i {
                    let k = choose|k: int| 0 <= k < before.len() && before[k] == id;
                    assert(out@[k] == before[k]);
                }
            }
            assert forall|k: int| old(out)@.len() <= k < out@.len() implies mentioned_in(ts@, #[trigger] out@[k]) by {
                if k < before.len() {
                    assert(out@[k] == before[k]);
                } else {
                    assert(crate::infer::mentions(ts@[i as int], out@[k]));
                }
            }
        }
        i = i + 1;
    }
}

fn contains_u32(v: &Vec<u32>, x: u32) -> (b: bool)
    ensures
        b == v@.contains(x),
{
    let mut i: usize = 0;
    while i < v.len()
        invariant
            i <= v@.len(),
            forall|j: int| 0 <= j < i ==> v@[j] != x,
        decreases v@.len() - i,
    {
        if v[i] == x {
            return true;
        }
        i = i + 1;
    }
    false
}

/// The typed form of an inferred expression, with variables left as
/// generic parameters.
pub fn finalize_infer_expr_allow_generic(ctx: &InferCtx, expr: InferExpr) -> (r: TypedExpr)
    ensures
        r.expr == expr.expr,
        r.casts == expr.casts,
        r.types@.len() == expr.types@.len(),
        forall|i: int| 0 <= i < r.types@.len() ==> (#[trigger] r.types@[i]).0 == expr.types@[i].0,
{
    let ty = infer_to_ty_allow_generic(ctx, &expr.ty);
    let mut types: Vec<(SpanKey, Ty)> = Vec::new();
    let mut i: usize = 0;
    while i < expr.types.len()
        invariant
            i <= expr.types@.len(),
            types@.len() == i,
            forall|j: int| 0 <= j < i ==> (#[trigger] types@[j]).0 == expr.types@[j].0,
        decreases expr.types@.len() - i,
    {
        let t = infer_to_ty_allow_generic(ctx, &expr.types[i].1);
        types.push((expr.types[i].0, t));
        i = i + 1;
    }
    TypedExpr { expr: expr.expr, ty, casts: expr.casts, types }
}

/// The typed form of an inferred expression; every type must be fully
/// known.
pub fn finalize_infer_expr(ctx: &InferCtx, expr: InferExpr) -> (r: DslResult<TypedExpr>)
    ensures
        r is Err ==> r->Err_0.message@ == "cannot infer expression type"@,
        r matches Ok(t) ==> t.expr == expr.expr && t.casts == expr.casts && t.types@.len() == expr.types@.len()
            && forall|i: int| 0 <= i < t.types@.len() ==> (#[trigger] t.types@[i]).0 == expr.types@[i].0,
{
    let ty = match infer_to_ty(ctx, &expr.ty) {
        Some(t) => t,
        None => return Err(Diag::new("cannot infer expression type").with_span(expr.expr.span())),
    };
    let mut types: Vec<(SpanKey, Ty)> = Vec::new();
    let mut i: usize = 0;
    while i < expr.types.len()
        invariant
            i <= expr.types@.len(),
            types@.len() == i,
            forall|j: int| 0 <= j < i ==> (#[trigger] types@[j]).0 == expr.types@[j].0,
        decreases expr.types@.len() - i,
    {
        let t = match infer_to_ty(ctx, &expr.types[i].1) {
            Some(t) => t,
            None => return Err(Diag::new("cannot infer expression type")),
        };
        types.push((expr.types[i].0, t));
        i = i + 1;
    }
    Ok(TypedExpr { expr: expr.expr, ty, casts: expr.casts, types })
}

fn inferred_fields(ctx: &InferCtx, owner: &String, fields: &Vec<Field>, infos: &Vec<FieldInfer>) -> (r: DslResult<Vec<Field>>)
    ensures
        fields@.len() > infos@.len() ==> r is Err,
        r matches Ok(v) ==> v@.len() == fields@.len() && forall|i: int| 0 <= i < fields@.len() ==>
            (#[trigger] v@[i]).name@ == fields@[i].name@ && v@[i].rust_name@ == fields@[i].rust_name@
            && v@[i].span == fields@[i].span && crate::infer::concrete(v@[i].ty),
{
    let mut out: Vec<Field> = Vec::new();
    let mut i: usize = 0;
    while i < fields.len()
        invariant
            i <= fields@.len(),
            out@.len() == i,
            fields@.len() > infos@.len() ==> i <= infos@.len(),
            forall|j: int| 0 <= j < i ==>
                (#[trigger] out@[j]).name@ == fields@[j].name@ && out@[j].rust_name@ == fields@[j].rust_name@
                && out@[j].span == fields@[j].span && crate::infer::concrete(out@[j].ty),
        decreases fields@.len() - i,
    {
        let f = &fields[i];
        if i >= infos.len() {
            return Err(Diag::new("internal error: struct field inference mismatch").with_span(f.span));
        }
        let finfo = &infos[i];
        let msg = concat5("cannot infer type for field '", owner.as_str(), ".", f.name.as_str(), "'");
        let ty = match infer_to_ty(ctx, &finfo.ty) {
            Some(t) => t,
            None => return Err(Diag::from_message(msg).with_span(finfo.span)),
        };
        if !crate::infer::is_concrete_ty(&ty) {
            return Err(Diag::from_message(msg).with_span(finfo.span));
        }
        out.push(Field { name: copy(&f.name), rust_name: copy(&f.rust_name), ty, span: f.span });
        i = i + 1;
    }
    Ok(out)
}

fn find_infos<'a>(entries: &'a Vec<(String, Vec<FieldInfer>)>, name: &String) -> (r: Option<&'a Vec<FieldInfer>>) {
    let mut i: usize = 0;
    while i < entries.len()
        invariant
            i <= entries@.len(),
        decreases entries@.len() - i,
    {
        if entries[i].0 == *name {
            return Some(&entries[i].1);
        }
        i = i + 1;
    }
    None
}

/// Every field type in `fields` is fully known.
pub open spec fn fields_concrete(fields: Seq<Field>) -> bool {
    forall|j: int| 0 <= j < fields.len() ==> crate::infer::concrete(#[trigger] fields[j].ty)
}

/// Every field of every record and enum variant of `env` has a fully known
/// type.
pub open spec fn env_fields_concrete(env: TypeEnv) -> bool {
    &&& forall|i: int| 0 <= i < env.structs@.len() ==> fields_concrete((#[trigger] env.structs@[i]).fields@)
    &&& forall|i: int, m: int| 0 <= i < env.unions@.len() && 0 <= m < env.unions@[i].variants@.len()
        ==> fields_concrete((#[trigger] env.unions@[i].variants@[m]).fields@)
}

/// The type environment with every field's type as inference decided it;
/// each must be fully known.
pub fn apply_field_inference(env: &TypeEnv, field_env: &FieldInferEnv, ctx: &InferCtx) -> (r: DslResult<TypeEnv>)
    ensures
        r matches Ok(out) ==> env_fields_concrete(out) && out.structs@.len() == env.structs@.len()
            && out.unions@.len() == env.unions@.len()
            && (forall|i: int| 0 <= i < out.structs@.len() ==> (#[trigger] out.structs@[i]).name@ == env.structs@[i].name@
                && out.structs@[i].fields@.len() == env.structs@[i].fields@.len())
            && (forall|i: int| 0 <= i < out.unions@.len() ==> (#[trigger] out.unions@[i]).name@ == env.unions@[i].name@
                && out.unions@[i].variants@.len() == env.unions@[i].variants@.len()),
{
    let mut out = TypeEnv::new();
    let mut i: usize = 0;
    while i < env.structs.len()
        invariant
            i <= env.structs@.len(),
            out.structs@.len() == i,
            out.unions@.len() == 0,
            forall|k: int| 0 <= k < i ==> (#[trigger] out.structs@[k]).name@ == env.structs@[k].name@
                && out.structs@[k].fields@.len() == env.structs@[k].fields@.len()
                && fields_concrete(out.structs@[k].fields@),
        decreases env.structs@.len() - i,
    {
        let sd = &env.structs[i];
        let infos = match find_infos(&field_env.structs, &sd.name) {
            Some(x) => x,
            None => return Err(Diag::new("internal error: missing struct inference").with_span(sd.span)),
        };
        let fields = match inferred_fields(ctx, &sd.name, &sd.fields, infos) {
            Ok(f) => f,
            Err(e) => return Err(e),
        };
        let nsd = StructDef { name: copy(&sd.name), rust_name: copy(&sd.rust_name), fields, span: sd.span, extern_: sd.extern_ };
        if let Err(e) = out.insert_struct(nsd) {
            return Err(e);
        }
        i = i + 1;
    }
    let mut u: usize = 0;
    while u < env.unions.len()
        invariant
            u <= env.unions@.len(),
            out.structs@.len() == env.structs@.len(),
            out.unions@.len() == u,
            forall|k: int| 0 <= k < env.structs@.len() ==> (#[trigger] out.structs@[k]).name@ == env.structs@[k].name@
                && out.structs@[k].fields@.len() == env.structs@[k].fields@.len()
                && fields_concrete(out.structs@[k].fields@),
            forall|k: int| 0 <= k < u ==> (#[trigger] out.unions@[k]).name@ == env.unions@[k].name@
                && out.unions@[k].variants@.len() == env.unions@[k].variants@.len()
                && forall|m: int| 0 <= m < out.unions@[k].variants@.len()
                    ==> fields_concrete((#[trigger] out.unions@[k].variants@[m]).fields@),
        decreases env.unions@.len() - u,
    {
        let ud = &env.unions[u];
        let mut variants: Vec<VariantDef> = Vec::new();
        let mut k: usize = 0;
        while k < ud.variants.len()
            invariant
                k <= ud.variants@.len(),
                variants@.len() == k,
                forall|m: int| 0 <= m < k ==> fields_concrete((#[trigger] variants@[m]).fields@),
            decreases ud.variants@.len() - k,
        {
            let v = &ud.variants[k];
            let infos = match find_infos(&field_env.variants, &v.name) {
                Some(x) => x,
                None => return Err(Diag::new("internal error: missing variant inference").with_span(v.span)),
            };
            let fields = match inferred_fields(ctx, &v.name, &v.fields, infos) {
                Ok(f) => f,
                Err(e) => return Err(e),
            };
            variants.push(VariantDef { name: copy(&v.name), rust_name: copy(&v.rust_name), fields, span: v.span });
            k = k + 1;
        }
        let nud = UnionDef { name: copy(&ud.name), rust_name: copy(&ud.rust_name), variants, span: ud.span, extern_: ud.extern_ };
        if let Err(e) = out.insert_union(nud) {
            return Err(e);
        }
        u = u + 1;
    }
    Ok(out)
}

fn name_in_env(env: &TypeEnv, name: &String) -> (b: bool) {
    find_struct(env, name).is_some() || find_union_index(env, name).is_some() || find_variant_index(env, name).is_some()
}

fn find_union_index(env: &TypeEnv, name: &String) -> (r: Option<usize>) {
    let mut i: usize = 0;
    while i < env.unions.len()
        invariant
            i <= env.unions@.len(),
        decreases env.unions@.len() - i,
    {
        if env.unions[i].name == *name {
            return Some(i);
        }
        i = i + 1;
    }
    None
}

fn find_variant_index(env: &TypeEnv, name: &String) -> (r: Option<usize>) {
    let mut i: usize = 0;
    while i < env.variants.len()
        invariant
            i <= env.variants@.len(),
        decreases env.variants@.len() - i,
    {
        if env.variants[i].0 == *name {
            return Some(i);
        }
        i = i + 1;
    }
    None
}

fn global_index(globals: &Vec<(String, InferTy)>, name: &String) -> (r: Option<usize>)
    ensures
        r matches Some(i) ==> i < globals@.len(),
{
    let mut i: usize = 0;
    while i < globals.len()
        invariant
            i <= globals@.len(),
        decreases globals@.len() - i,
    {
        if globals[i].0 == *name {
            return Some(i);
        }
        i = i + 1;
    }
    None
}

/// The inference signature of a function: declared parameter types (with
/// generics shared), fresh variables for the rest, and a fresh return
/// type unless the function is extern.
fn declare_fn(ctx: &mut InferCtx, fd: &FnDef) -> (r: DslResult<InferFnSig>)
    requires
        old(ctx).wf(),
    ensures
        final(ctx).wf(),
        r matches Ok(s) ==> s.params@.len() == fd.params@.len(),
{
    let mut generics: Vec<(u32, InferTy)> = Vec::new();
    let mut params: Vec<InferTy> = Vec::new();
    let mut i: usize = 0;
    while i < fd.params.len()
        invariant
            i <= fd.params@.len(),
            params@.len() == i,
            ctx.wf(),
        decreases fd.params@.len() - i,
    {
        let t = match &fd.params[i].ann {
            Some(ann) => crate::infer::infer_from_ty_with_generics(ctx, ann, &mut generics),
            None => ctx.fresh_var(),
        };
        match t {
            Ok(t) => params.push(t),
            Err(e) => return Err(e),
        }
        i = i + 1;
    }
    if fd.extern_ {
        let mut k: usize = 0;
        while k < fd.params.len()
            invariant
                k <= fd.params@.len(),
                ctx.wf(),
            decreases fd.params@.len() - k,
        {
            if fd.params[k].ann.is_none() {
                let msg = concat3("extern function parameter '", fd.params[k].name.as_str(), "' must declare a type");
                return Err(Diag::from_message(msg).with_span(fd.params[k].span));
            }
            k = k + 1;
        }
    }
    let ret = if fd.extern_ {
        match &fd.extern_ret {
            Some(t) => crate::infer::infer_from_ty_with_generics(ctx, t, &mut generics),
            None => return Err(Diag::new("extern function must declare return type").with_span(fd.span)),
        }
    } else {
        ctx.fresh_var()
    };
    match ret {
        Ok(ret) => Ok(InferFnSig { params, ret }),
        Err(e) => Err(e),
    }
}

/// The parameter types and spans of a function by Rust name.
fn build_param_maps(f: &FnDef, sig: &InferFnSig) -> (r: DslResult<(Vec<(String, InferTy)>, Vec<(String, Span)>)>)
    ensures
        r is Ok <==> sig.params@.len() == f.params@.len(),
        r matches Ok((tys, spans)) ==> tys@.len() == f.params@.len() && spans@.len() == f.params@.len()
            && forall|i: int| 0 <= i < f.params@.len() ==> (#[trigger] tys@[i]).0@ == f.params@[i].rust_name@
                && crate::infer::view_of(tys@[i].1) == crate::infer::view_of(sig.params@[i])
                && spans@[i].0@ == f.params@[i].rust_name@ && spans@[i].1 == f.params@[i].span,
{
    if sig.params.len() != f.params.len() {
        return Err(Diag::new("internal error: function parameter arity mismatch").with_span(f.span));
    }
    let mut tys: Vec<(String, InferTy)> = Vec::new();
    let mut spans: Vec<(String, Span)> = Vec::new();
    let mut i: usize = 0;
    while i < f.params.len()
        invariant
            i <= f.params@.len(),
            sig.params@.len() == f.params@.len(),
            tys@.len() == i,
            spans@.len() == i,
            forall|j: int| 0 <= j < i ==> (#[trigger] tys@[j]).0@ == f.params@[j].rust_name@
                && crate::infer::view_of(tys@[j].1) == crate::infer::view_of(sig.params@[j])
                && spans@[j].0@ == f.params@[j].rust_name@ && spans@[j].1 == f.params@[j].span,
        decreases f.params@.len() - i,
    {
        tys.push((copy(&f.params[i].rust_name), clone_ity(&sig.params[i])));
        spans.push((copy(&f.params[i].rust_name), f.params[i].span));
        i = i + 1;
    }
    Ok((tys, spans))
}

/// The message for a function name used twice with one arity.
pub open spec fn dup_fn_error(fd: FnDef) -> Seq<char> {
    dup_fn_message(fd.name@, fd.params@.len())
}

/// Records and enums named `name` among `structs` and `unions`.
pub open spec fn env_has_type(structs: Seq<StructDef>, unions: Seq<UnionDef>, name: Seq<char>) -> bool {
    (exists|i: int| 0 <= i < structs.len() && (#[trigger] structs[i]).name@ == name)
        || (exists|i: int| 0 <= i < unions.len() && (#[trigger] unions[i]).name@ == name)
}

proof fn lemma_has_type_push_struct(s: Seq<StructDef>, u: Seq<UnionDef>, sd: StructDef, name: Seq<char>)
    requires
        env_has_type(s, u, name),
    ensures
        env_has_type(s.push(sd), u, name),
{
    if exists|i: int| 0 <= i < s.len() && (#[trigger] s[i]).name@ == name {
        let i = choose|i: int| 0 <= i < s.len() && (#[trigger] s[i]).name@ == name;
        assert(s.push(sd)[i] == s[i]);
    }
}

proof fn lemma_has_type_push_union(s: Seq<StructDef>, u: Seq<UnionDef>, ud: UnionDef, name: Seq<char>)
    requires
        env_has_type(s, u, name),
    ensures
        env_has_type(s, u.push(ud), name),
{
    if exists|i: int| 0 <= i < u.len() && (#[trigger] u[i]).name@ == name {
        let i = choose|i: int| 0 <= i < u.len() && (#[trigger] u[i]).name@ == name;
        assert(u.push(ud)[i] == u[i]);
    }
}

/// Type-checks a program: records and enums are registered, inline
/// functions expanded, every function and top-level value declared (names
/// must not clash; a function name may repeat with another arity), then
/// bodies are inferred, numeric and integer constraints settled, and field
/// types fixed. Generic internal functions are then specialised at calls
/// with known argument types, parameter modes and clone sites worked out,
/// and each function's generic bounds collected.
pub fn typecheck_tops(tops: &Vec<Top>) -> (r: DslResult<TypecheckedProgram>)
    ensures
        r matches Ok(p) ==> p.fn_env.wf() && p.bounds_wf() && env_fields_concrete(p.env),
        crate::inline::dup_fn(tops@) ==> r is Err,
        crate::inline::dup_type(tops@) ==> r is Err,
        crate::inline::has_stray_jump(tops@) ==> r is Err,
{
    let filtered = match crate::inline::expand_inline_tops(tops) {
        Ok(f) => f,
        Err(e) => return Err(e),
    };
    let mut env = TypeEnv::new();
    let mut i: usize = 0;
    while i < filtered.len()
        invariant
            i <= filtered@.len(),
            forall|j: int| 0 <= j < i && (#[trigger] crate::inline::top_type_name(filtered@[j])) is Some
                ==> env_has_type(env.structs@, env.unions@, crate::inline::top_type_name(filtered@[j])->Some_0),
            forall|j: int| 0 <= j < i && (#[trigger] crate::inline::top_type_name(filtered@[j])) is Some
                ==> !crate::inline::has_type(filtered@.take(j), crate::inline::top_type_name(filtered@[j])->Some_0),
        decreases filtered@.len() - i,
    {
        let ghost s0 = env.structs@;
        let ghost u0 = env.unions@;
        let ghost ti = filtered@[i as int];
        proof {
            if let Some(n) = crate::inline::top_type_name(ti) {
                if crate::inline::has_type(filtered@.take(i as int), n) {
                    let k = choose|k: int| 0 <= k < filtered@.take(i as int).len()
                        && crate::inline::top_type_name(#[trigger] filtered@.take(i as int)[k]) == Some(n);
                    assert(filtered@[k] == filtered@.take(i as int)[k]);
                    assert(crate::inline::top_type_name(filtered@[k]) is Some);
                }
            }
        }
        match &filtered[i] {
            Top::Struct(sd) => {
                let c = crate::ast::clone_struct_def(sd);
                if let Err(e) = env.insert_struct(c) {
                    return Err(e);
                }
                proof {
                    assert(env.structs@.last().name@ == sd.name@);
                    assert forall|j: int| 0 <= j < i + 1 && (#[trigger] crate::inline::top_type_name(filtered@[j])) is Some
                        implies env_has_type(env.structs@, env.unions@, crate::inline::top_type_name(filtered@[j])->Some_0) by {
                        let n = crate::inline::top_type_name(filtered@[j])->Some_0;
                        if j < i {
                            lemma_has_type_push_struct(s0, u0, c, n);
                        } else {
                            assert(env.structs@[env.structs@.len() - 1] == env.structs@.last());
                        }
                    }
                }
            },
            Top::Union(ud) => {
                let c = crate::ast::clone_union_def(ud);
                if let Err(e) = env.insert_union(c) {
                    return Err(e);
                }
                proof {
                    assert(env.unions@.last().name@ == ud.name@);
                    assert forall|j: int| 0 <= j < i + 1 && (#[trigger] crate::inline::top_type_name(filtered@[j])) is Some
                        implies env_has_type(env.structs@, env.unions@, crate::inline::top_type_name(filtered@[j])->Some_0) by {
                        let n = crate::inline::top_type_name(filtered@[j])->Some_0;
                        if j < i {
                            lemma_has_type_push_union(s0, u0, c, n);
                        } else {
                            assert(env.unions@[env.unions@.len() - 1] == env.unions@.last());
                        }
                    }
                }
            },
            _ => {},
        }
        i = i + 1;
    }
    proof {
        if crate::inline::dup_type(tops@) {
            crate::inline::lemma_kept_dup_type(filtered@, tops@);
            let j = choose|j: int| 0 <= j < filtered@.len() && (#[trigger] crate::inline::top_type_name(filtered@[j])) is Some
                && crate::inline::has_type(filtered@.take(j), crate::inline::top_type_name(filtered@[j])->Some_0);
            assert(false);
        }
    }
    let def_base_names = collect_def_base_names(&filtered);
    let mut ctx = InferCtx::new();
    let field_env = match build_field_infer_env(&env, &mut ctx) {
        Ok(f) => f,
        Err(e) => return Err(e),
    };
    let mut fn_env = InferFnEnv::new();
    let mut globals: Vec<(String, InferTy)> = Vec::new();
    let mut i: usize = 0;
    while i < filtered.len()
        invariant
            i <= filtered@.len(),
            ctx.wf(),
            forall|j: int| 0 <= j < i && (#[trigger] filtered@[j]) is Func ==> infer_env_has(fn_env.fns@,
                filtered@[j]->Func_0.name@, filtered@[j]->Func_0.params@.len()),
            forall|j: int| 0 <= j < i && (#[trigger] filtered@[j]) is Func ==> !crate::inline::has_fn(filtered@.take(j),
                filtered@[j]->Func_0.name@, filtered@[j]->Func_0.params@.len()),
        decreases filtered@.len() - i,
    {
        match &filtered[i] {
            Top::Func(fd) => {
                proof {
                    if crate::inline::has_fn(filtered@.take(i as int), fd.name@, fd.params@.len()) {
                        let j = choose|j: int| 0 <= j < filtered@.take(i as int).len()
                            && (#[trigger] filtered@.take(i as int)[j]) is Func
                            && filtered@.take(i as int)[j]->Func_0.name@ == fd.name@
                            && filtered@.take(i as int)[j]->Func_0.params@.len() == fd.params@.len();
                        assert(filtered@[j] == filtered@.take(i as int)[j]);
                        assert(filtered@[j] is Func);
                    }
                }
                if name_in_env(&env, &fd.name) || fn_env.get_arity(fd.name.as_str(), fd.params.len()).is_some()
                    || global_index(&globals, &fd.name).is_some() {
                    let n = usize_to_string(fd.params.len());
                    let msg = concat3("duplicate function '", fd.name.as_str(), "' with arity ");
                    let msg = concat3(msg.as_str(), n.as_str(), "");
                    return Err(Diag::from_message(msg).with_span(fd.span));
                }
                if let Err(e) = check_param_bindings(fd, &def_base_names) {
                    return Err(e);
                }
                let sig = match declare_fn(&mut ctx, fd) {
                    Ok(s) => s,
                    Err(e) => return Err(e),
                };
                let ghost before = fn_env.fns@;
                let ghost sig0 = sig;
                let nm = copy(&fd.name);
                if let Err(e) = fn_env.insert(nm, sig) {
                    return Err(e);
                }
                proof {
                    if has_name(before, fd.name@) {
                        lemma_first_entry_exists(before, fd.name@);
                    }
                    lemma_insert_keeps(before, fn_env.fns@, fd.name@, sig0);
                }
            },
            Top::Def(d) => {
                if name_in_env(&env, &d.name) || fn_env.get(d.name.as_str()).is_some()
                    || global_index(&globals, &d.name).is_some() {
                    let msg = concat3("duplicate def '", d.name.as_str(), "'");
                    return Err(Diag::from_message(msg).with_span(d.span));
                }
                let ty = match &d.ann {
                    Some(ann) => infer_from_ty(&mut ctx, ann),
                    None => ctx.fresh_var(),
                };
                match ty {
                    Ok(t) => globals.push((copy(&d.name), t)),
                    Err(e) => return Err(e),
                }
            },
            _ => {},
        }
        i = i + 1;
    }
    proof {
        if crate::inline::dup_fn(tops@) {
            crate::inline::lemma_kept_dup_fn(filtered@, tops@);
            let j = choose|j: int| 0 <= j < filtered@.len() && (#[trigger] filtered@[j]) is Func
                && crate::inline::has_fn(filtered@.take(j), filtered@[j]->Func_0.name@, filtered@[j]->Func_0.params@.len());
            assert(false);
        }
    }
    let sc = crate::infer_expr::Scope {
        env: &env,
        fields: &field_env,
        fns: &fn_env,
        globals: &globals,
        def_base_names: &def_base_names,
        current_fn: None,
    };
    let mut infer_fns: Vec<(FnDef, Vec<(String, InferTy)>, InferExpr)> = Vec::new();
    let mut infer_defs: Vec<(crate::ast::Def, InferExpr)> = Vec::new();
    let mut i: usize = 0;
    while i < filtered.len()
        invariant
            i <= filtered@.len(),
            ctx.wf(),
            forall|j: int| 0 <= j < i ==> !crate::inline::stray_jump_fn(#[trigger] filtered@[j]),
        decreases filtered@.len() - i,
    {
        match &filtered[i] {
            Top::Func(fd) => {
                let sig = match fn_env.get_arity(fd.name.as_str(), fd.params.len()) {
                    Some(s) => s,
                    None => return Err(Diag::new("internal error: missing function signature").with_span(fd.span)),
                };
                let (param_tys, param_spans) = match build_param_maps(fd, sig) {
                    Ok(x) => x,
                    Err(e) => return Err(e),
                };
                if let Err(e) = apply_param_field_constraints(&env, fd, &param_tys, &param_spans, &mut ctx) {
                    return Err(e);
                }
                let body = if fd.extern_ {
                    InferExpr { expr: crate::ast::clone_expr(&fd.body), ty: clone_ity(&sig.ret), casts: Vec::new(), types: Vec::new() }
                } else {
                    let fsc = crate::infer_expr::Scope {
                        env: &env,
                        fields: &field_env,
                        fns: &fn_env,
                        globals: &globals,
                        def_base_names: &def_base_names,
                        current_fn: Some(copy(&fd.name)),
                    };
                    let mut loops: Vec<crate::infer_expr::LoopFrame> = Vec::new();
                    let b = match crate::infer_expr::infer_expr(&fsc, &mut ctx, &param_tys, &mut loops, &fd.body) {
                        Ok(b) => b,
                        Err(e) => return Err(e),
                    };
                    if let Err(e) = ctx.unify(&sig.ret, &b.ty, fd.body.span()) {
                        return Err(e);
                    }
                    b
                };
                infer_fns.push((fd.clone(), param_tys, body));
            },
            Top::Def(d) => {
                let def_ty = match global_index(&globals, &d.name) {
                    Some(k) => clone_ity(&globals[k].1),
                    None => return Err(Diag::new("internal error: missing def type").with_span(d.span)),
                };
                let vars: Vec<(String, InferTy)> = Vec::new();
                let mut loops: Vec<crate::infer_expr::LoopFrame> = Vec::new();
                let mut b = match crate::infer_expr::infer_expr(&sc, &mut ctx, &vars, &mut loops, &d.expr) {
                    Ok(b) => b,
                    Err(e) => return Err(e),
                };
                if let Err(e) = ctx.unify(&def_ty, &b.ty, d.span) {
                    return Err(e);
                }
                b.ty = def_ty;
                infer_defs.push((d.clone(), b));
            },
            _ => {},
        }
        i = i + 1;
    }
    proof {
        if crate::inline::has_stray_jump(tops@) {
            crate::inline::lemma_kept_stray_jump(filtered@, tops@);
            let j = choose|j: int| 0 <= j < filtered@.len() && crate::inline::stray_jump_fn(#[trigger] filtered@[j]);
            assert(false);
        }
    }
    let mut keep_vars: Vec<u32> = Vec::new();
    let mut i: usize = 0;
    while i < infer_fns.len()
        invariant
            i <= infer_fns@.len(),
            ctx.wf(),
        decreases infer_fns@.len() - i,
    {
        let mut k: usize = 0;
        while k < infer_fns[i].1.len()
            invariant
                i < infer_fns@.len(),
                k <= infer_fns@[i as int].1@.len(),
                ctx.wf(),
            decreases infer_fns@[i as int].1@.len() - k,
        {
            let resolved = ctx.resolve(&infer_fns[i].1[k].1);
            collect_infer_var_ids(&resolved, &mut keep_vars);
            k = k + 1;
        }
        i = i + 1;
    }
    if let Err(e) = crate::infer::check_numeric_constraints(&mut ctx, &keep_vars) {
        return Err(e);
    }
    if let Err(e) = crate::infer::check_int_constraints(&mut ctx, &keep_vars) {
        return Err(e);
    }
    let final_env = match apply_field_inference(&env, &field_env, &ctx) {
        Ok(e) => e,
        Err(e) => return Err(e),
    };
    let mut typed_fns: Vec<TypedFn> = Vec::new();
    while infer_fns.len() > 0
        invariant
            true,
        decreases infer_fns@.len(),
    {
        let (def, param_tys, body) = infer_fns.remove(0);
        let mut final_params: Vec<(String, Ty)> = Vec::new();
        let mut k: usize = 0;
        while k < param_tys.len()
            invariant
                k <= param_tys@.len(),
            decreases param_tys@.len() - k,
        {
            final_params.push((copy(&param_tys[k].0), infer_to_ty_allow_generic(&ctx, &param_tys[k].1)));
            k = k + 1;
        }
        let body = finalize_infer_expr_allow_generic(&ctx, body);
        let mut mutated: Vec<String> = Vec::new();
        collect_mutated_vars(&body.expr, &mut mutated);
        typed_fns.push(TypedFn {
            def,
            param_tys: final_params,
            param_modes: Vec::new(),
            generic_bounds: Vec::new(),
            body,
            mutated,
        });
    }
    let mut typed_fns = crate::specialize::specialize_internal_typed_fns(typed_fns, usize::MAX);
    let mut typed_defs: Vec<TypedDef> = Vec::new();
    while infer_defs.len() > 0
        invariant
            true,
        decreases infer_defs@.len(),
    {
        let (def, body) = infer_defs.remove(0);
        let expr_span = def.expr.span();
        let body = match finalize_infer_expr(&ctx, body) {
            Ok(b) => b,
            Err(e) => {
                let e = if e.span.is_none() { e.with_span(expr_span) } else { e };
                return Err(e);
            },
        };
        typed_defs.push(TypedDef { def, body });
    }
    let fn_env = crate::ownership::infer_param_modes(&typed_fns);
    crate::ownership::apply_param_modes(&mut typed_fns, &fn_env);
    let plan = crate::ownership::analyze_moves(&typed_fns, &fn_env);
    let mut k: usize = 0;
    while k < typed_fns.len()
        invariant
            k <= typed_fns@.len(),
            forall|j: int| 0 <= j < k ==> crate::bounds::ids_unique(#[trigger] typed_fns@[j].generic_bounds@),
        decreases typed_fns@.len() - k,
    {
        let mut bounds: Vec<(u32, Vec<crate::typed::GenericBound>)> = Vec::new();
        crate::bounds::collect_bounds_expr(&typed_fns[k].body.expr, &typed_fns[k].body.types, &plan.auto_clones, &mut bounds);
        let ghost before = typed_fns@;
        let mut f = typed_fns.remove(k);
        f.generic_bounds = bounds;
        typed_fns.insert(k, f);
        proof {
            assert forall|j: int| 0 <= j < k + 1 implies crate::bounds::ids_unique(#[trigger] typed_fns@[j].generic_bounds@) by {
                if j < k {
                    assert(typed_fns@[j] == before[j]);
                }
            }
        }
        k = k + 1;
    }
    if let Err(e) = enforce_export_signatures(&typed_fns) {
        return Err(e);
    }
    Ok(TypecheckedProgram {
        env: final_env,
        typed_fns,
        typed_defs,
        fn_env,
        auto_clones: plan.auto_clones,
        warnings: plan.warnings,
    })
}

/// Checks one function on its own, against the given types, function
/// signatures and top-level values: its parameter and result types are
/// inferred, its body typed, and the trait bounds its generic parameters
/// need recorded. An extern function is taken at its declared types, which
/// it must give.
pub fn typecheck_fn(
    env: &TypeEnv,
    fns: &FnEnv,
    global_defs: &Vec<(String, Ty)>,
    def_base_names: &Vec<String>,
    f: &FnDef,
) -> (r: DslResult<TypedFn>)
    ensures
        r matches Ok(t) ==> t.param_modes@.len() == f.params@.len()
            && crate::bounds::ids_unique(t.generic_bounds@),
        f.extern_ ==> (r is Ok <==> (f.extern_ret is Some && forall|i: int| 0 <= i < f.params@.len() ==> (#[trigger] f.params@[i]).ann is Some)),
{
    let mut default_modes: Vec<(String, ParamMode)> = Vec::new();
    let mut i: usize = 0;
    while i < f.params.len()
        invariant
            i <= f.params@.len(),
            default_modes@.len() == i,
        decreases f.params@.len() - i,
    {
        default_modes.push((copy(&f.params[i].rust_name), ParamMode::ByVal));
        i = i + 1;
    }
    if f.extern_ {
        let mut param_tys: Vec<(String, Ty)> = Vec::new();
        let mut i: usize = 0;
        while i < f.params.len()
            invariant
                i <= f.params@.len(),
                forall|j: int| 0 <= j < i ==> (#[trigger] f.params@[j]).ann is Some,
            decreases f.params@.len() - i,
        {
            let p = &f.params[i];
            match &p.ann {
                Some(ann) => param_tys.push((copy(&p.rust_name), crate::ast::clone_ty(ann))),
                None => {
                    let msg = concat3("extern function parameter '", p.name.as_str(), "' must declare a type");
                    return Err(Diag::from_message(msg).with_span(p.span));
                },
            }
            i = i + 1;
        }
        let ret = match &f.extern_ret {
            Some(t) => crate::ast::clone_ty(t),
            None => return Err(Diag::new("extern function must declare return type").with_span(f.span)),
        };
        let body = TypedExpr { expr: crate::ast::clone_expr(&f.body), ty: ret, casts: Vec::new(), types: Vec::new() };
        return Ok(TypedFn {
            def: f.clone(),
            param_tys,
            param_modes: default_modes,
            generic_bounds: Vec::new(),
            body,
            mutated: Vec::new(),
        });
    }
    infer_fn(env, fns, global_defs, def_base_names, f, default_modes)
}

fn infer_fn(
    env: &TypeEnv,
    fns: &FnEnv,
    global_defs: &Vec<(String, Ty)>,
    def_base_names: &Vec<String>,
    f: &FnDef,
    default_modes: Vec<(String, ParamMode)>,
) -> (r: DslResult<TypedFn>)
    requires
        default_modes@.len() == f.params@.len(),
    ensures
        r matches Ok(t) ==> t.param_modes@.len() == f.params@.len()
            && crate::bounds::ids_unique(t.generic_bounds@),
{
    let mut ctx = InferCtx::new();
    let field_env = match build_field_infer_env(env, &mut ctx) {
        Ok(x) => x,
        Err(e) => return Err(e),
    };
    let mut infer_fns = InferFnEnv::new();
    let mut i: usize = 0;
    while i < fns.fns.len()
        invariant
            i <= fns.fns@.len(),
            ctx.wf(),
            default_modes@.len() == f.params@.len(),
        decreases fns.fns@.len() - i,
    {
        let mut k: usize = 0;
        while k < fns.fns[i].1.len()
            invariant
                i < fns.fns@.len(),
                k <= fns.fns@[i as int].1@.len(),
                ctx.wf(),
                default_modes@.len() == f.params@.len(),
            decreases fns.fns@[i as int].1@.len() - k,
        {
            let sig = &fns.fns[i].1[k];
            let mut params: Vec<InferTy> = Vec::new();
            let mut j: usize = 0;
            while j < sig.params.len()
                invariant
                    j <= sig.params@.len(),
                    ctx.wf(),
                decreases sig.params@.len() - j,
            {
                match infer_from_ty(&mut ctx, &sig.params[j]) {
                    Ok(t) => params.push(t),
                    Err(e) => return Err(e),
                }
                j = j + 1;
            }
            let ret = match infer_from_ty(&mut ctx, &sig.ret) {
                Ok(t) => t,
                Err(e) => return Err(e),
            };
            if let Err(e) = infer_fns.insert(copy(&fns.fns[i].0), InferFnSig { params, ret }) {
                return Err(e);
            }
            k = k + 1;
        }
        i = i + 1;
    }
    let mut globals: Vec<(String, InferTy)> = Vec::new();
    let mut i: usize = 0;
    while i < global_defs.len()
        invariant
            i <= global_defs@.len(),
            ctx.wf(),
            default_modes@.len() == f.params@.len(),
        decreases global_defs@.len() - i,
    {
        match infer_from_ty(&mut ctx, &global_defs[i].1) {
            Ok(t) => globals.push((copy(&global_defs[i].0), t)),
            Err(e) => return Err(e),
        }
        i = i + 1;
    }
    if let Err(e) = check_param_bindings(f, def_base_names) {
        return Err(e);
    }
    let mut params: Vec<InferTy> = Vec::new();
    let mut i: usize = 0;
    while i < f.params.len()
        invariant
            i <= f.params@.len(),
            ctx.wf(),
            default_modes@.len() == f.params@.len(),
        decreases f.params@.len() - i,
    {
        let t = match &f.params[i].ann {
            Some(ann) => infer_from_ty(&mut ctx, ann),
            None => ctx.fresh_var(),
        };
        match t {
            Ok(t) => params.push(t),
            Err(e) => return Err(e),
        }
        i = i + 1;
    }
    let ret = match ctx.fresh_var() {
        Ok(t) => t,
        Err(e) => return Err(e),
    };
    let sig = InferFnSig { params, ret };
    if infer_fns.get_arity(f.name.as_str(), f.params.len()).is_none() {
        if let Err(e) = infer_fns.insert(copy(&f.name), clone_sig(&sig)) {
            return Err(e);
        }
    }
    let (param_tys, param_spans) = match build_param_maps(f, &sig) {
        Ok(x) => x,
        Err(e) => return Err(e),
    };
    if let Err(e) = apply_param_field_constraints(env, f, &param_tys, &param_spans, &mut ctx) {
        return Err(e);
    }
    let sc = crate::infer_expr::Scope {
        env,
        fields: &field_env,
        fns: &infer_fns,
        globals: &globals,
        def_base_names,
        current_fn: Some(copy(&f.name)),
    };
    let mut loops: Vec<crate::infer_expr::LoopFrame> = Vec::new();
    let infer_body = match crate::infer_expr::infer_expr(&sc, &mut ctx, &param_tys, &mut loops, &f.body) {
        Ok(b) => b,
        Err(e) => return Err(e),
    };
    if let Err(e) = ctx.unify(&sig.ret, &infer_body.ty, f.body.span()) {
        return Err(e);
    }
    let mut round: usize = 0;
    while round < 2
        invariant
            ctx.wf(),
            default_modes@.len() == f.params@.len(),
        decreases 2 - round,
    {
        let mut keep_vars: Vec<u32> = Vec::new();
        let mut k: usize = 0;
        while k < param_tys.len()
            invariant
                k <= param_tys@.len(),
                ctx.wf(),
            decreases param_tys@.len() - k,
        {
            let resolved = ctx.resolve(&param_tys[k].1);
            collect_infer_var_ids(&resolved, &mut keep_vars);
            k = k + 1;
        }
        if let Err(e) = crate::infer::check_numeric_constraints(&mut ctx, &keep_vars) {
            return Err(e);
        }
        if let Err(e) = crate::infer::check_int_constraints(&mut ctx, &keep_vars) {
            return Err(e);
        }
        round = round + 1;
    }
    let mut final_params: Vec<(String, Ty)> = Vec::new();
    let mut k: usize = 0;
    while k < param_tys.len()
        invariant
            k <= param_tys@.len(),
        decreases param_tys@.len() - k,
    {
        final_params.push((copy(&param_tys[k].0), infer_to_ty_allow_generic(&ctx, &param_tys[k].1)));
        k = k + 1;
    }
    let body = finalize_infer_expr_allow_generic(&ctx, infer_body);
    let mut bounds: Vec<(u32, Vec<crate::typed::GenericBound>)> = Vec::new();
    crate::bounds::collect_bounds_expr(&body.expr, &body.types, &Vec::new(), &mut bounds);
    let mut mutated: Vec<String> = Vec::new();
    collect_mutated_vars(&body.expr, &mut mutated);
    Ok(TypedFn {
        def: f.clone(),
        param_tys: final_params,
        param_modes: default_modes,
        generic_bounds: bounds,
        body,
        mutated,
    })
}

} // verus!
