//! Runtime support that generated programs call: comparisons, shared
//! vectors, strings, options and results.

use std::cmp::Ordering;
use std::sync::Arc;
use vstd::prelude::*;
use vstd::std_specs::cmp::PartialEqSpec;
use vstd::std_specs::cmp::PartialOrdSpec;
use vstd::std_specs::ops::SubSpec;
use crate::lexer::{is_space, space};
use crate::text::{chars_of, push_char, sub_string};

verus! {

/// The larger of two values under `partial_cmp`, the first when they are
/// not ordered as greater.
pub open spec fn ord_max<T: PartialOrd>(a: T, b: T) -> T {
    if a.partial_cmp_spec(&b) == Some(Ordering::Greater) {
        a
    } else {
        b
    }
}

/// The smaller of two values under `partial_cmp`, the first when it is
/// ordered as less.
pub open spec fn ord_min<T: PartialOrd>(a: T, b: T) -> T {
    if a.partial_cmp_spec(&b) == Some(Ordering::Less) {
        a
    } else {
        b
    }
}

/// Clones a value.
pub fn core_clone<T: Clone>(val: &T) -> (r: T)
    ensures
        cloned(*val, r),
{
    val.clone()
}

/// `a > b`.
pub fn math_gt<T: PartialOrd>(a: T, b: T) -> (r: bool)
    ensures
        T::obeys_partial_cmp_spec() ==> (r <==> a.partial_cmp_spec(&b) == Some(Ordering::Greater)),
{
    a > b
}

/// `a < b`.
pub fn math_lt<T: PartialOrd>(a: T, b: T) -> (r: bool)
    ensures
        T::obeys_partial_cmp_spec() ==> (r <==> a.partial_cmp_spec(&b) == Some(Ordering::Less)),
{
    a < b
}

/// `a == b`.
pub fn math_eq<T: PartialEq>(a: T, b: T) -> (r: bool)
    ensures
        T::obeys_eq_spec() ==> r == a.eq_spec(&b),
{
    a == b
}

/// The smaller of `a` and `b`: `a` when `a < b`, else `b`.
pub fn math_min<T: PartialOrd>(a: T, b: T) -> (r: T)
    ensures
        r == a || r == b,
        T::obeys_partial_cmp_spec() ==> r == ord_min(a, b),
{
    if a < b {
        a
    } else {
        b
    }
}

/// The larger of `a` and `b`: `a` when `a > b`, else `b`.
pub fn math_max<T: PartialOrd>(a: T, b: T) -> (r: T)
    ensures
        r == a || r == b,
        T::obeys_partial_cmp_spec() ==> r == ord_max(a, b),
{
    if a > b {
        a
    } else {
        b
    }
}

/// `x` limited to `lo` from below and then to `hi` from above.
pub fn math_clamp<T: PartialOrd>(x: T, lo: T, hi: T) -> (r: T)
    ensures
        r == x || r == lo || r == hi,
        T::obeys_partial_cmp_spec() ==> r == ord_min(ord_max(x, lo), hi),
{
    math_min(math_max(x, lo), hi)
}


/// Takes the vector out of a shared handle: the same vector when this is
/// the only handle, otherwise a clone of it.
#[verifier::external_body]
fn arc_vec_unwrap_or_clone<T: Clone>(v: Arc<Vec<T>>) -> (r: Vec<T>)
    ensures
        r@.len() == v@.len(),
        forall|i: int| 0 <= i < v@.len() ==> cloned(v@[i], #[trigger] r@[i]),
{
    Arc::unwrap_or_clone(v)
}

/// `r` is what `math_abs` may give for `x`: `x` itself when it is not less
/// than (a clone of) the default value, else the default value minus `x`.
pub open spec fn abs_of<T>(x: T, r: T) -> bool
    where
        T: PartialOrd + Default + Clone + core::ops::Sub<Output = T>,
{
    exists|zero: T, zc: T|
        #![trigger call_ensures(T::default, (), zero), cloned(zero, zc)]
        call_ensures(T::default, (), zero) && cloned(zero, zc) && ((r == x && (T::obeys_partial_cmp_spec()
            ==> x.partial_cmp_spec(&zc) != Some(Ordering::Less))) || ((T::obeys_partial_cmp_spec()
            ==> x.partial_cmp_spec(&zc) == Some(Ordering::Less)) && (T::obeys_sub_spec() ==> r
            == zero.sub_spec(x))))
}

/// The absolute value of `x`, measured against `T::default()`.
pub fn math_abs<T>(x: T) -> (r: T)
    where
        T: PartialOrd + Default + Clone + core::ops::Sub<Output = T>,
    requires
        forall|z: T| call_ensures(T::default, (), z) ==> #[trigger] z.sub_req(x),
    ensures
        abs_of(x, r),
{
    let zero = T::default();
    let zc = zero.clone();
    if x < zc {
        let r = zero - x;
        assert(call_ensures(T::default, (), zero) && cloned(zero, zc));
        r
    } else {
        assert(call_ensures(T::default, (), zero) && cloned(zero, zc));
        x
    }
}

/// An empty shared vector.
pub fn vec_new<T>() -> (r: Arc<Vec<T>>)
    ensures
        r@ == Seq::<T>::empty(),
{
    Arc::new(Vec::new())
}

/// The number of elements.
pub fn vec_len<T>(v: &Arc<Vec<T>>) -> (r: usize)
    ensures
        r == v@.len(),
{
    v.len()
}

/// A clone of the element at `idx`.
pub fn vec_get<T: Clone>(v: &Arc<Vec<T>>, idx: usize) -> (r: T)
    requires
        idx < v@.len(),
    ensures
        cloned(v@[idx as int], r),
{
    v[idx].clone()
}

/// The vector with the element at `idx` replaced by `val`; the other
/// elements are kept or cloned.
pub fn vec_set<T: Clone>(v: Arc<Vec<T>>, idx: usize, val: T) -> (r: Arc<Vec<T>>)
    requires
        idx < v@.len(),
    ensures
        r@.len() == v@.len(),
        r@[idx as int] == val,
        forall|i: int| 0 <= i < v@.len() && i != idx ==> cloned(v@[i], #[trigger] r@[i]),
{
    let mut slot = arc_vec_unwrap_or_clone(v);
    slot.set(idx, val);
    Arc::new(slot)
}

/// The vector with `val` appended; the other elements are kept or cloned.
pub fn vec_push<T: Clone>(v: Arc<Vec<T>>, val: T) -> (r: Arc<Vec<T>>)
    ensures
        r@.len() == v@.len() + 1,
        r@[v@.len() as int] == val,
        forall|i: int| 0 <= i < v@.len() ==> cloned(v@[i], #[trigger] r@[i]),
{
    let mut slot = arc_vec_unwrap_or_clone(v);
    slot.push(val);
    Arc::new(slot)
}

/// `n` clones of `val`.
pub fn vec_repeat<T: Clone>(val: T, n: usize) -> (r: Arc<Vec<T>>)
    ensures
        r@.len() == n,
        forall|i: int| 0 <= i < n ==> cloned(val, #[trigger] r@[i]),
{
    Arc::new(vec![val; n])
}

/// `b` is what `f` may give for some clone of `a`.
pub open spec fn maps_clone_to<T: Clone, U, F: Fn(T) -> U>(f: F, a: T, b: U) -> bool {
    exists|w: T| cloned(a, w) && #[trigger] f.ensures((w,), b)
}

/// `f` applied to a clone of each element, in order.
pub fn vec_map<T, U, F>(f: F, v: Arc<Vec<T>>) -> (r: Arc<Vec<U>>)
    where
        F: Fn(T) -> U,
        T: Clone,
    requires
        forall|k: int, w: T| 0 <= k < v@.len() && #[trigger] cloned(v@[k], w) ==> f.requires((w,)),
    ensures
        r@.len() == v@.len(),
        forall|i: int| 0 <= i < v@.len() ==> #[trigger] maps_clone_to(f, v@[i], r@[i]),
{
    let mut out: Vec<U> = Vec::new();
    let n = v.len();
    let mut i: usize = 0;
    while i < n
        invariant
            n == v@.len(),
            i <= n,
            out@.len() == i,
            forall|k: int, w: T| 0 <= k < v@.len() && #[trigger] cloned(v@[k], w) ==> f.requires((w,)),
            forall|j: int| 0 <= j < i ==> #[trigger] maps_clone_to(f, v@[j], out@[j]),
        decreases n - i,
    {
        let x = v[i].clone();
        assert(cloned(v@[i as int], x));
        let y = f(x);
        assert(cloned(v@[i as int], x) && f.ensures((x,), y));
        assert(maps_clone_to(f, v@[i as int], y));
        out.push(y);
        i = i + 1;
    }
    Arc::new(out)
}

/// `c` is what `f` may give for some clones of `a` and `b`.
pub open spec fn maps2_clone_to<A: Clone, B: Clone, C, F: Fn(A, B) -> C>(f: F, a: A, b: B, c: C) -> bool {
    exists|wa: A, wb: B| cloned(a, wa) && cloned(b, wb) && #[trigger] f.ensures((wa, wb), c)
}

/// `f` applied pairwise to clones of the elements of both vectors, up to the
/// shorter length.
pub fn vec_map2<A, B, C, F>(f: F, v1: Arc<Vec<A>>, v2: Arc<Vec<B>>) -> (r: Arc<Vec<C>>)
    where
        F: Fn(A, B) -> C,
        A: Clone,
        B: Clone,
    requires
        forall|k: int, wa: A, wb: B| 0 <= k < v1@.len() && k < v2@.len() && #[trigger] cloned(v1@[k], wa)
            && #[trigger] cloned(v2@[k], wb) ==> f.requires((wa, wb)),
    ensures
        r@.len() == if v1@.len() <= v2@.len() { v1@.len() } else { v2@.len() },
        forall|i: int| 0 <= i < r@.len() ==> #[trigger] maps2_clone_to(f, v1@[i], v2@[i], r@[i]),
{
    let mut out: Vec<C> = Vec::new();
    let n = if v1.len() <= v2.len() { v1.len() } else { v2.len() };
    let mut i: usize = 0;
    while i < n
        invariant
            n == (if v1@.len() <= v2@.len() { v1@.len() } else { v2@.len() }),
            i <= n,
            out@.len() == i,
            forall|k: int, wa: A, wb: B| 0 <= k < v1@.len() && k < v2@.len() && #[trigger] cloned(v1@[k], wa)
                && #[trigger] cloned(v2@[k], wb) ==> f.requires((wa, wb)),
            forall|j: int| 0 <= j < i ==> #[trigger] maps2_clone_to(f, v1@[j], v2@[j], out@[j]),
        decreases n - i,
    {
        let a = v1[i].clone();
        let b = v2[i].clone();
        assert(cloned(v1@[i as int], a) && cloned(v2@[i as int], b));
        let c = f(a, b);
        assert(cloned(v1@[i as int], a) && cloned(v2@[i as int], b) && f.ensures((a, b), c));
        assert(maps2_clone_to(f, v1@[i as int], v2@[i as int], c));
        out.push(c);
        i = i + 1;
    }
    Arc::new(out)
}

/// `r` is a result that folding `f` over clones of `s` from `init` may give.
pub open spec fn folds_to<A, B: Clone, F: Fn(A, B) -> A>(f: F, init: A, s: Seq<B>, r: A) -> bool
    decreases s.len(),
{
    if s.len() == 0 {
        r == init
    } else {
        exists|acc: A, w: B|
            folds_to(f, init, s.drop_last(), acc) && cloned(s.last(), w) && #[trigger] f.ensures(
                (acc, w),
                r,
            )
    }
}

/// The left fold of `f` over clones of the elements, starting from `init`.
pub fn vec_fold<A, B, F>(f: F, init: A, v: Arc<Vec<B>>) -> (r: A)
    where
        F: Fn(A, B) -> A,
        B: Clone,
    requires
        forall|k: int, a: A, w: B| 0 <= k < v@.len() && #[trigger] folds_to(f, init, v@.subrange(0, k), a)
            && #[trigger] cloned(v@[k], w) ==> f.requires((a, w)),
    ensures
        folds_to(f, init, v@, r),
{
    let n = v.len();
    let mut acc = init;
    let mut i: usize = 0;
    while i < n
        invariant
            n == v@.len(),
            i <= n,
            forall|k: int, a: A, w: B| 0 <= k < v@.len() && #[trigger] folds_to(f, init, v@.subrange(0, k), a)
                && #[trigger] cloned(v@[k], w) ==> f.requires((a, w)),
            folds_to(f, init, v@.subrange(0, i as int), acc),
        decreases n - i,
    {
        let w = v[i].clone();
        let ghost prev = acc;
        assert(folds_to(f, init, v@.subrange(0, i as int), acc) && cloned(v@[i as int], w));
        acc = f(acc, w);
        let ghost pre = v@.subrange(0, i as int);
        let ghost next = v@.subrange(0, i + 1);
        assert(next.drop_last() =~= pre);
        assert(next.last() == v@[i as int]);
        assert(folds_to(f, init, pre, prev) && cloned(next.last(), w) && f.ensures((prev, w), acc));
        assert(folds_to(f, init, next, acc));
        i = i + 1;
    }
    assert(v@.subrange(0, n as int) =~= v@);
    acc
}

/// Clones of the first `n` elements (all of them when there are fewer).
pub fn vec_take<T: Clone>(v: Arc<Vec<T>>, n: usize) -> (r: Arc<Vec<T>>)
    ensures
        r@.len() == if n <= v@.len() { n as nat } else { v@.len() },
        forall|i: int| 0 <= i < r@.len() ==> cloned(v@[i], #[trigger] r@[i]),
{
    let m = if n <= v.len() { n } else { v.len() };
    let mut out: Vec<T> = Vec::new();
    let mut i: usize = 0;
    while i < m
        invariant
            m <= v@.len(),
            m == (if n <= v@.len() { n as nat } else { v@.len() }),
            i <= m,
            out@.len() == i,
            forall|j: int| 0 <= j < i ==> cloned(v@[j], #[trigger] out@[j]),
        decreases m - i,
    {
        let x = v[i].clone();
        out.push(x);
        i = i + 1;
    }
    Arc::new(out)
}

/// The indices `0, 1, ..., n - 1`.
pub fn vec_range(n: usize) -> (r: Arc<Vec<usize>>)
    ensures
        r@.len() == n,
        forall|i: int| 0 <= i < n ==> #[trigger] r@[i] == i,
{
    let mut out: Vec<usize> = Vec::new();
    let mut i: usize = 0;
    while i < n
        invariant
            i <= n,
            out@.len() == i,
            forall|j: int| 0 <= j < i ==> #[trigger] out@[j] == j,
        decreases n - i,
    {
        out.push(i);
        i = i + 1;
    }
    Arc::new(out)
}

/// The length of `s` in UTF-8 bytes.
pub fn string_len(s: &String) -> (r: usize)
    ensures
        r == vstd::utf8::encode_utf8(s@).len() as usize,
{
    s.as_str().len()
}

/// Whether `s` has no characters.
pub fn string_is_empty(s: &String) -> (r: bool)
    ensures
        r == (s@.len() == 0),
{
    s.as_str().is_empty()
}

/// Index of the first character of `s` that is not white space, at or
/// after `from`; `s.len()` when there is none.
pub open spec fn first_non_space(s: Seq<char>, from: int) -> int
    decreases s.len() - from,
{
    if from >= s.len() {
        s.len() as int
    } else if !is_space(s[from]) {
        from
    } else {
        first_non_space(s, from + 1)
    }
}

/// One past the index of the last character of `s[..to]` that is not white
/// space; 0 when there is none.
pub open spec fn last_non_space_end(s: Seq<char>, to: int) -> int
    decreases to,
{
    if to <= 0 {
        0
    } else if !is_space(s[to - 1]) {
        to
    } else {
        last_non_space_end(s, to - 1)
    }
}

/// `s` without leading and trailing white space (Unicode `White_Space`).
pub open spec fn trimmed(s: Seq<char>) -> Seq<char> {
    let start = first_non_space(s, 0);
    let end = last_non_space_end(s, s.len() as int);
    if start < end {
        s.subrange(start, end)
    } else {
        Seq::empty()
    }
}

/// `s` without leading and trailing white space (Unicode `White_Space`).
pub fn string_trim(s: &String) -> (r: String)
    ensures
        r@ == trimmed(s@),
{
    let cs = chars_of(s.as_str());
    let n = cs.len();
    let mut start: usize = 0;
    while start < n && space(cs[start])
        invariant
            n == cs@.len(),
            start <= n,
            first_non_space(cs@, 0) == first_non_space(cs@, start as int),
        decreases n - start,
    {
        start = start + 1;
    }
    let mut end: usize = n;
    while end > 0 && space(cs[end - 1])
        invariant
            n == cs@.len(),
            end <= n,
            last_non_space_end(cs@, n as int) == last_non_space_end(cs@, end as int),
        decreases end,
    {
        end = end - 1;
    }
    if start < end {
        sub_string(cs.as_slice(), start, end)
    } else {
        String::new()
    }
}

/// `sep` occurs in `s` at index `i`.
pub open spec fn match_at(s: Seq<char>, sep: Seq<char>, i: int) -> bool {
    0 <= i && i + sep.len() <= s.len() && s.subrange(i, i + sep.len()) == sep
}

/// The first index at or after `from` where `sep` occurs in `s`, if any.
pub open spec fn next_match(s: Seq<char>, sep: Seq<char>, from: int) -> Option<int>
    decreases s.len() + 1 - from,
{
    if from < 0 || from + sep.len() > s.len() {
        None
    } else if match_at(s, sep, from) {
        Some(from)
    } else {
        next_match(s, sep, from + 1)
    }
}

/// A match found from `from` lies at or after `from`.
pub proof fn lemma_next_match_bounds(s: Seq<char>, sep: Seq<char>, from: int)
    ensures
        next_match(s, sep, from) matches Some(k) ==> from <= k && match_at(s, sep, k),
    decreases s.len() + 1 - from,
{
    if from < 0 || from + sep.len() > s.len() {
    } else if match_at(s, sep, from) {
    } else {
        lemma_next_match_bounds(s, sep, from + 1);
    }
}

/// The pieces of `s[start..]` between the non-overlapping occurrences of a
/// non-empty `sep`, found from the left.
pub open spec fn split_from(s: Seq<char>, sep: Seq<char>, start: int) -> Seq<Seq<char>>
    decreases s.len() - start,
{
    if sep.len() == 0 || start < 0 || start > s.len() {
        seq![]
    } else {
        match next_match(s, sep, start) {
            None => seq![s.subrange(start, s.len() as int)],
            Some(k) => {
                proof {
                    lemma_next_match_bounds(s, sep, start);
                }
                seq![s.subrange(start, k)] + split_from(s, sep, k + sep.len())
            },
        }
    }
}

/// What `str::split` gives for a string pattern: with an empty `sep`, an
/// empty piece, each character, and an empty piece; otherwise the pieces
/// between the occurrences of `sep`.
pub open spec fn split_pieces(s: Seq<char>, sep: Seq<char>) -> Seq<Seq<char>> {
    if sep.len() == 0 {
        seq![Seq::<char>::empty()] + Seq::new(s.len(), |i: int| seq![s[i]]) + seq![
            Seq::<char>::empty(),
        ]
    } else {
        split_from(s, sep, 0)
    }
}

fn matches_at(s: &[char], sep: &[char], i: usize) -> (b: bool)
    requires
        i + sep@.len() <= s@.len(),
    ensures
        b == match_at(s@, sep@, i as int),
{
    let _n = s.len();
    let mut j: usize = 0;
    while j < sep.len()
        invariant
            _n == s@.len(),
            i + sep@.len() <= s@.len(),
            j <= sep@.len(),
            forall|t: int| 0 <= t < j ==> s@[i + t] == sep@[t],
        decreases sep@.len() - j,
    {
        if s[i + j] != sep[j] {
            assert(s@.subrange(i as int, i + sep@.len())[j as int] != sep@[j as int]);
            return false;
        }
        j = j + 1;
    }
    assert(s@.subrange(i as int, i + sep@.len()) =~= sep@);
    true
}

/// The pieces of `s` between the occurrences of `sep`, as `str::split`
/// gives them.
pub fn string_split(s: &String, sep: &String) -> (r: Arc<Vec<String>>)
    ensures
        r@.len() == split_pieces(s@, sep@).len(),
        forall|i: int| 0 <= i < r@.len() ==> #[trigger] r@[i]@ == split_pieces(s@, sep@)[i],
{
    let cs = chars_of(s.as_str());
    let ps = chars_of(sep.as_str());
    let n = cs.len();
    let m = ps.len();
    let mut out: Vec<String> = Vec::new();
    if m == 0 {
        out.push(String::new());
        let mut i: usize = 0;
        while i < n
            invariant
                n == cs@.len(),
                i <= n,
                out@.len() == i + 1,
                out@[0]@ == Seq::<char>::empty(),
                forall|j: int| 1 <= j <= i ==> #[trigger] out@[j]@ == seq![cs@[j - 1]],
            decreases n - i,
        {
            out.push(sub_string(cs.as_slice(), i, i + 1));
            assert(cs@.subrange(i as int, i + 1) =~= seq![cs@[i as int]]);
            i = i + 1;
        }
        out.push(String::new());
        proof {
            let want = split_pieces(cs@, ps@);
            assert(want.len() == out@.len());
            assert forall|j: int| 0 <= j < out@.len() implies #[trigger] out@[j]@ == want[j] by {
                if j == 0 {
                } else if j <= n {
                    assert(want[j] == seq![cs@[j - 1]]);
                } else {
                }
            }
        }
        return Arc::new(out);
    }
    let mut start: usize = 0;
    let mut i: usize = 0;
    while m <= n && i <= n - m
        invariant
            n == cs@.len(),
            m == ps@.len(),
            m > 0,
            start <= i,
            i <= n,
            split_from(cs@, ps@, 0) == out@.map_values(|x: String| x@) + split_from(cs@, ps@, start as int),
            next_match(cs@, ps@, start as int) == next_match(cs@, ps@, i as int),
        decreases n - i,
    {
        if matches_at(cs.as_slice(), ps.as_slice(), i) {
            let ghost before = out@.map_values(|x: String| x@);
            let piece = sub_string(cs.as_slice(), start, i);
            out.push(piece);
            assert(out@.map_values(|x: String| x@) =~= before.push(cs@.subrange(start as int, i as int)));
            start = i + m;
            i = start;
        } else {
            i = i + 1;
        }
    }
    let piece = sub_string(cs.as_slice(), start, n);
    let ghost before = out@.map_values(|x: String| x@);
    out.push(piece);
    proof {
        assert(out@.map_values(|x: String| x@) =~= before.push(cs@.subrange(start as int, n as int)));
        assert(next_match(cs@, ps@, i as int) == None::<int>);
        assert(split_pieces(cs@, ps@) == out@.map_values(|x: String| x@));
    }
    Arc::new(out)
}

/// The pieces with `sep` between each two neighbours.
pub open spec fn joined(parts: Seq<Seq<char>>, sep: Seq<char>) -> Seq<char>
    decreases parts.len(),
{
    if parts.len() == 0 {
        Seq::empty()
    } else if parts.len() == 1 {
        parts[0]
    } else {
        joined(parts.drop_last(), sep) + sep + parts.last()
    }
}

/// The strings with `sep` between each two neighbours.
pub fn string_join(items: Arc<Vec<String>>, sep: &String) -> (r: String)
    ensures
        r@ == joined(items@.map_values(|x: String| x@), sep@),
{
    let ghost parts = items@.map_values(|x: String| x@);
    let n = items.len();
    let mut out = String::new();
    let mut i: usize = 0;
    while i < n
        invariant
            n == items@.len(),
            parts == items@.map_values(|x: String| x@),
            i <= n,
            out@ == joined(parts.subrange(0, i as int), sep@),
        decreases n - i,
    {
        let ghost prev = out@;
        if i > 0 {
            out = append_str(out, sep);
        }
        out = append_str(out, &items[i]);
        proof {
            let next = parts.subrange(0, i + 1);
            assert(next.drop_last() =~= parts.subrange(0, i as int));
            assert(next.last() == items@[i as int]@);
            if i == 0 {
                assert(out@ =~= next[0]);
            } else {
                assert(out@ =~= prev + sep@ + next.last());
            }
        }
        i = i + 1;
    }
    assert(parts.subrange(0, n as int) =~= parts);
    out
}

fn append_str(a: String, b: &String) -> (r: String)
    ensures
        r@ == a@ + b@,
{
    let mut a = a;
    let cs = chars_of(b.as_str());
    let mut i: usize = 0;
    let ghost start = a@;
    while i < cs.len()
        invariant
            i <= cs@.len(),
            cs@ == b@,
            a@ == start + cs@.subrange(0, i as int),
        decreases cs@.len() - i,
    {
        push_char(&mut a, cs[i]);
        i = i + 1;
        assert(a@ =~= start + cs@.subrange(0, i as int));
    }
    assert(cs@.subrange(0, cs@.len() as int) =~= cs@);
    a
}

/// Conversion of a runtime integer into a numeric type of the program.
pub trait FromInt: Sized {
    /// `val` converted as Rust's `as` converts.
    fn from_int(val: i64) -> Self;
}

/// Conversion of a numeric value into `usize`, as Rust's `as` converts.
pub trait IntoUsize: Sized {
    /// `self` converted as Rust's `as` converts.
    fn into_usize(self) -> usize;
}

impl FromInt for i8 {
    fn from_int(val: i64) -> (r: i8)
        ensures
            r == val as i8,
    {
        val as i8
    }
}

impl FromInt for i16 {
    fn from_int(val: i64) -> (r: i16)
        ensures
            r == val as i16,
    {
        val as i16
    }
}

impl FromInt for i32 {
    fn from_int(val: i64) -> (r: i32)
        ensures
            r == val as i32,
    {
        val as i32
    }
}

impl FromInt for i64 {
    fn from_int(val: i64) -> (r: i64)
        ensures
            r == val as i64,
    {
        val as i64
    }
}

impl FromInt for isize {
    fn from_int(val: i64) -> (r: isize)
        ensures
            r == val as isize,
    {
        val as isize
    }
}

impl FromInt for u8 {
    fn from_int(val: i64) -> (r: u8)
        ensures
            r == val as u8,
    {
        val as u8
    }
}

impl FromInt for u16 {
    fn from_int(val: i64) -> (r: u16)
        ensures
            r == val as u16,
    {
        val as u16
    }
}

impl FromInt for u32 {
    fn from_int(val: i64) -> (r: u32)
        ensures
            r == val as u32,
    {
        val as u32
    }
}

impl FromInt for u64 {
    fn from_int(val: i64) -> (r: u64)
        ensures
            r == val as u64,
    {
        val as u64
    }
}

impl FromInt for usize {
    fn from_int(val: i64) -> (r: usize)
        ensures
            r == val as usize,
    {
        val as usize
    }
}

impl IntoUsize for usize {
    fn into_usize(self) -> (r: usize)
        ensures
            r == self as usize,
    {
        self
    }
}

impl IntoUsize for isize {
    fn into_usize(self) -> (r: usize)
        ensures
            r == self as usize,
    {
        self as usize
    }
}

impl IntoUsize for i64 {
    fn into_usize(self) -> (r: usize)
        ensures
            r == self as usize,
    {
        self as usize
    }
}

impl IntoUsize for i32 {
    fn into_usize(self) -> (r: usize)
        ensures
            r == self as usize,
    {
        self as usize
    }
}

impl IntoUsize for u64 {
    fn into_usize(self) -> (r: usize)
        ensures
            r == self as usize,
    {
        self as usize
    }
}

impl IntoUsize for u32 {
    fn into_usize(self) -> (r: usize)
        ensures
            r == self as usize,
    {
        self as usize
    }
}

impl IntoUsize for i128 {
    fn into_usize(self) -> (r: usize)
        ensures
            r == self as usize,
    {
        self as usize
    }
}

impl IntoUsize for u128 {
    fn into_usize(self) -> (r: usize)
        ensures
            r == self as usize,
    {
        self as usize
    }
}

impl IntoUsize for i16 {
    fn into_usize(self) -> (r: usize)
        ensures
            r == self as usize,
    {
        self as usize
    }
}

impl IntoUsize for u16 {
    fn into_usize(self) -> (r: usize)
        ensures
            r == self as usize,
    {
        self as usize
    }
}

impl IntoUsize for i8 {
    fn into_usize(self) -> (r: usize)
        ensures
            r == self as usize,
    {
        self as usize
    }
}

impl IntoUsize for u8 {
    fn into_usize(self) -> (r: usize)
        ensures
            r == self as usize,
    {
        self as usize
    }
}

impl IntoUsize for bool {
    fn into_usize(self) -> (r: usize)
        ensures
            r == if self { 1usize } else { 0usize },
    {
        if self { 1 } else { 0 }
    }
}

/// `val` converted into `T`.
pub fn from_int<T: FromInt>(val: i64) -> (r: T)
    ensures
        call_ensures(T::from_int, (val,), r),
{
    T::from_int(val)
}

/// `v` converted into `usize`.
pub fn cast_usize<T: IntoUsize>(v: T) -> (r: usize)
    ensures
        call_ensures(T::into_usize, (v,), r),
{
    v.into_usize()
}

/// `Some(val)`.
pub fn option_some<T>(val: T) -> (r: Option<T>)
    ensures
        r == Some(val),
{
    Some(val)
}

/// `None`.
pub fn option_none<T>() -> (r: Option<T>)
    ensures
        r == None::<T>,
{
    None
}

/// Whether `val` holds a value.
pub fn option_is_some<T>(val: Option<T>) -> (r: bool)
    ensures
        r == val is Some,
{
    val.is_some()
}

/// Whether `val` holds nothing.
pub fn option_is_none<T>(val: Option<T>) -> (r: bool)
    ensures
        r == val is None,
{
    val.is_none()
}

/// The value held by `val`.
pub fn option_unwrap<T>(val: Option<T>) -> (r: T)
    requires
        val is Some,
    ensures
        r == val->Some_0,
{
    val.unwrap()
}

/// The value held by `val`, or `fallback`.
pub fn option_unwrap_or<T>(val: Option<T>, fallback: T) -> (r: T)
    ensures
        r == match val {
            Some(x) => x,
            None => fallback,
        },
{
    match val {
        Some(x) => x,
        None => fallback,
    }
}

/// `Ok(val)`.
pub fn result_ok<T, E>(val: T) -> (r: Result<T, E>)
    ensures
        r == Ok::<T, E>(val),
{
    Ok(val)
}

/// `Err(err)`.
pub fn result_err<T, E>(err: E) -> (r: Result<T, E>)
    ensures
        r == Err::<T, E>(err),
{
    Err(err)
}

/// Whether `val` is `Ok`.
pub fn result_is_ok<T, E>(val: Result<T, E>) -> (r: bool)
    ensures
        r == val is Ok,
{
    val.is_ok()
}

/// Whether `val` is `Err`.
pub fn result_is_err<T, E>(val: Result<T, E>) -> (r: bool)
    ensures
        r == val is Err,
{
    val.is_err()
}

/// The value held by an `Ok`.
pub fn result_unwrap<T, E: std::fmt::Debug>(val: Result<T, E>) -> (r: T)
    requires
        val is Ok,
    ensures
        r == val->Ok_0,
{
    val.unwrap()
}

/// The value held by an `Ok`, or `fallback`.
pub fn result_unwrap_or<T, E>(val: Result<T, E>, fallback: T) -> (r: T)
    ensures
        r == match val {
            Ok(x) => x,
            Err(_) => fallback,
        },
{
    match val {
        Ok(x) => x,
        Err(_) => fallback,
    }
}

/// The `Debug` rendering of `val` (`{:?}`).
#[verifier::external_body]
pub fn fmt_format<T: std::fmt::Debug>(val: T) -> String {
    format!("{:?}", val)
}

/// The pretty `Debug` rendering of `val` (`{:#?}`).
#[verifier::external_body]
pub fn fmt_pretty<T: std::fmt::Debug>(val: T) -> String {
    format!("{:#?}", val)
}

} // verus!
