//! Bounds learned from the Rust compiler's complaints about generated code:
//! the messages name a type parameter `T<n>` and a trait it lacks, and the
//! bound is added to the functions that use that parameter.

use vstd::prelude::*;
use crate::bounds::{add_bound, bound_same, bounds_grow, clone_bound, collect_generic_ids, has_bound, ids_unique};
use crate::lexer::{all_digits, digits_value, is_space};
use crate::rt::{match_at, next_match, trimmed};
use crate::text::{chars_of, str_is};
use crate::typecheck::TypecheckedProgram;
use crate::typed::GenericBound;

verus! {

/// Bounds for type parameters, by parameter id.
#[derive(Debug)]
pub struct FeedbackHints {
    pub bounds: Vec<(u32, Vec<GenericBound>)>,
}

impl FeedbackHints {
    /// Each type parameter has one entry.
    pub open spec fn wf(&self) -> bool {
        ids_unique(self.bounds@)
    }
}

impl Default for FeedbackHints {
    fn default() -> (h: FeedbackHints)
        ensures
            h.bounds@.len() == 0,
    {
        FeedbackHints { bounds: Vec::new() }
    }
}

// ---------------------------------------------------------------------------
// Searching text

/// The first position at or after `from` where `needle` occurs in `s`.
pub fn find_from(s: &[char], needle: &[char], from: usize) -> (r: Option<usize>)
    ensures
        match next_match(s@, needle@, from as int) {
            Some(k) => r == Some(k as usize),
            None => r is None,
        },
    decreases s@.len() + 1 - from,
{
    let sl = s.len();
    if from > sl || needle.len() > sl - from {
        return None;
    }
    let mut j: usize = 0;
    let mut same = true;
    while j < needle.len()
        invariant
            sl == s@.len(),
            from + needle@.len() <= s@.len(),
            j <= needle@.len(),
            same == forall|t: int| 0 <= t < j ==> s@[from + t] == needle@[t],
        decreases needle@.len() - j,
    {
        if s[from + j] != needle[j] {
            same = false;
        }
        j = j + 1;
    }
    proof {
        if same {
            assert(s@.subrange(from as int, from + needle@.len()) =~= needle@);
        } else {
            let t = choose|t: int| 0 <= t < needle@.len() && s@[from + t] != needle@[t];
            assert(s@.subrange(from as int, from + needle@.len())[t] != needle@[t]);
        }
    }
    if same {
        Some(from)
    } else {
        find_from(s, needle, from + 1)
    }
}

/// The position of the first `c` in `s`.
pub fn first_char(s: &[char], c: char) -> (r: Option<usize>)
    ensures
        r matches Some(i) ==> i < s@.len(),
        match crate::text::first_index(s@, c) {
            Some(k) => 0 <= k < s@.len() && r == Some(k as usize),
            None => r is None,
        },
{
    proof {
        crate::text::lemma_first_index(s@, c);
    }
    match crate::text::find_char(s, c) {
        Some(i) => {
            proof {
                let k = crate::text::first_index(s@, c)->Some_0;
                if k < i {
                    assert(s@[k] != c);
                } else if k > i {
                    assert(s@[i as int] != c);
                }
            }
            Some(i)
        },
        None => {
            proof {
                if let Some(k) = crate::text::first_index(s@, c) {
                    assert(s@.contains(c)) by {
                        assert(s@[k] == c);
                    }
                }
            }
            None
        },
    }
}

/// The text between the first `open` in `s` and the backquote after it.
pub open spec fn quoted_after(s: Seq<char>, open: Seq<char>) -> Option<Seq<char>> {
    match next_match(s, open, 0) {
        Some(k) => {
            let rest = s.subrange(k + open.len(), s.len() as int);
            match next_match(rest, seq!['`'], 0) {
                Some(e) => Some(rest.subrange(0, e)),
                None => None,
            }
        },
        None => None,
    }
}

proof fn lemma_match_bounds(s: Seq<char>, n: Seq<char>)
    ensures
        next_match(s, n, 0) matches Some(k) ==> 0 <= k && k + n.len() <= s.len(),
{
    crate::rt::lemma_next_match_bounds(s, n, 0);
}

/// The text of `s` after `open` up to the next backquote.
fn quoted_text(s: &[char], open: &str) -> (r: Option<Vec<char>>)
    ensures
        r matches Some(v) ==> quoted_after(s@, open@) == Some(v@),
        r is None ==> quoted_after(s@, open@) is None,
{
    let needle = chars_of(open);
    let _sl = s.len();
    proof {
        lemma_match_bounds(s@, needle@);
    }
    let start = match find_from(s, needle.as_slice(), 0) {
        Some(k) => k,
        None => return None,
    };
    let rest = crate::text::sub_chars(s, start + needle.len(), s.len());
    let tick: Vec<char> = vec!['`'];
    proof {
        assert(tick@ =~= seq!['`']);
        lemma_match_bounds(rest@, tick@);
    }
    let end = match find_from(rest.as_slice(), tick.as_slice(), 0) {
        Some(e) => e,
        None => return None,
    };
    Some(crate::text::sub_chars(rest.as_slice(), 0, end))
}

// ---------------------------------------------------------------------------
// Reading bounds out of messages

/// The length of the run of ASCII digits at the start of `s`.
pub open spec fn lead_digits(s: Seq<char>) -> nat
    decreases s.len(),
{
    if s.len() > 0 && '0' <= s[0] && s[0] <= '9' { 1 + lead_digits(s.drop_first()) } else { 0 }
}

/// `T` followed by at least one digit: the number the digits make, when it
/// fits in 32 bits.
pub open spec fn hint_generic_id(s: Seq<char>) -> Option<u32> {
    let n = lead_digits(s.drop_first());
    let v = digits_value(s.subrange(1, 1 + n as int));
    if s.len() > 0 && s[0] == 'T' && n > 0 && v <= u32::MAX { Some(v as u32) } else { None }
}

proof fn lemma_lead_digits(s: Seq<char>)
    ensures
        lead_digits(s) <= s.len(),
        all_digits(s.subrange(0, lead_digits(s) as int)),
        lead_digits(s) < s.len() ==> !('0' <= s[lead_digits(s) as int] && s[lead_digits(s) as int] <= '9'),
    decreases s.len(),
{
    if s.len() > 0 && '0' <= s[0] && s[0] <= '9' {
        lemma_lead_digits(s.drop_first());
        let n = lead_digits(s.drop_first()) as int;
        assert forall|i: int| 0 <= i < 1 + n implies '0' <= #[trigger] s.subrange(0, 1 + n as int)[i] <= '9' by {
            if i > 0 {
                assert(s.subrange(0, 1 + n as int)[i] == s.drop_first().subrange(0, n as int)[i - 1]);
            }
        }
    } else {
        assert(s.subrange(0, 0) =~= Seq::<char>::empty());
    }
}

/// The id of a type parameter named `T<digits>` (text after the digits is
/// ignored).
pub fn parse_generic_id(s: &[char]) -> (r: Option<u32>)
    ensures
        r == hint_generic_id(s@),
{
    if s.len() == 0 || s[0] != 'T' {
        return None;
    }
    proof {
        lemma_lead_digits(s@.drop_first());
    }
    let ghost n = lead_digits(s@.drop_first()) as int;
    proof {
        assert(s@.subrange(1, 1 + n) =~= s@.drop_first().subrange(0, n));
    }
    let mut i: usize = 1;
    let mut v: u64 = 0;
    while i < s.len() && '0' <= s[i] && s[i] <= '9'
        invariant
            n == lead_digits(s@.drop_first()) as int,
            s@.len() > 0 && s@[0] == 'T',
            1 <= i <= 1 + n,
            n + 1 <= s@.len(),
            all_digits(s@.subrange(1, 1 + n)),
            n < s@.len() - 1 ==> !('0' <= s@[1 + n] && s@[1 + n] <= '9'),
            s@.subrange(1, 1 + n) == s@.drop_first().subrange(0, n),
            v == digits_value(s@.subrange(1, i as int)),
            v <= u32::MAX,
        decreases s@.len() - i,
    {
        proof {
            if i == 1 + n {
                assert(n < s@.len() - 1);
            }
        }
        let d = (s[i] as u32 - '0' as u32) as u64;
        let nv = v * 10 + d;
        proof {
            let p = s@.subrange(1, i as int);
            let q = s@.subrange(1, i + 1);
            assert(q.drop_last() =~= p);
            assert(q.last() == s@[i as int]);
            assert(s@.subrange(1, 1 + n).subrange(0, i - 1) =~= p);
        }
        if nv > u32::MAX as u64 {
            proof {
                assert(i < 1 + n);
                let q = s@.subrange(1, i + 1);
                assert(digits_value(q) == nv);
                let whole = s@.subrange(1, 1 + n);
                assert(whole.subrange(0, i as int) =~= s@.subrange(1, i + 1));
                assert(all_digits(whole));
                crate::lexer::lemma_digits_value_grows(whole, i as int);

            }
            return None;
        }
        v = nv;
        i = i + 1;
    }
    proof {
        if i < 1 + n {
            assert(s@.drop_first()[i - 1] == s@[i as int]);
            assert(s@.subrange(1, 1 + n)[i - 1] == s@[i as int]);
        }
        assert(i == 1 + n);
    }
    if i == 1 {
        return None;
    }
    Some(v as u32)
}

/// The bound that a trait's name, as rustc prints it, stands for.
pub open spec fn bound_named(t: Seq<char>) -> Option<GenericBound> {
    if t == "Copy"@ { Some(GenericBound::Copy) }
    else if t == "Clone"@ { Some(GenericBound::Clone) }
    else if t == "Debug"@ { Some(GenericBound::Debug) }
    else if t == "PartialEq"@ { Some(GenericBound::PartialEq) }
    else if t == "PartialOrd"@ { Some(GenericBound::PartialOrd) }
    else if t == "__DarcyLen"@ { Some(GenericBound::Len) }
    else if t == "darcy_stdlib::rt::FromInt"@ { Some(GenericBound::FromInt) }
    else if crate::text::has_prefix(t, "std::ops::Add"@) { Some(GenericBound::Add) }
    else if crate::text::has_prefix(t, "std::ops::Sub"@) { Some(GenericBound::Sub) }
    else if crate::text::has_prefix(t, "std::ops::Mul"@) { Some(GenericBound::Mul) }
    else if crate::text::has_prefix(t, "std::ops::Div"@) { Some(GenericBound::Div) }
    else { None }
}

/// What a bound written `T<n>: Trait` says, both sides trimmed.
pub open spec fn bound_string(b: Seq<char>) -> Option<(u32, GenericBound)> {
    match crate::text::first_index(b, ':') {
        Some(c) => match (hint_generic_id(trimmed(b.subrange(0, c))), bound_named(trimmed(b.subrange(c + 1, b.len() as int)))) {
            (Some(id), Some(bound)) => Some((id, bound)),
            _ => None,
        },
        None => None,
    }
}

fn bound_from_name(t: &String) -> (r: Option<GenericBound>)
    ensures
        r == bound_named(t@),
{
    let s = t.as_str();
    if str_is(s, "Copy") { Some(GenericBound::Copy) }
    else if str_is(s, "Clone") { Some(GenericBound::Clone) }
    else if str_is(s, "Debug") { Some(GenericBound::Debug) }
    else if str_is(s, "PartialEq") { Some(GenericBound::PartialEq) }
    else if str_is(s, "PartialOrd") { Some(GenericBound::PartialOrd) }
    else if str_is(s, "__DarcyLen") { Some(GenericBound::Len) }
    else if str_is(s, "darcy_stdlib::rt::FromInt") { Some(GenericBound::FromInt) }
    else if crate::text::string_starts_with(t, "std::ops::Add") { Some(GenericBound::Add) }
    else if crate::text::string_starts_with(t, "std::ops::Sub") { Some(GenericBound::Sub) }
    else if crate::text::string_starts_with(t, "std::ops::Mul") { Some(GenericBound::Mul) }
    else if crate::text::string_starts_with(t, "std::ops::Div") { Some(GenericBound::Div) }
    else { None }
}

/// Reads a bound written `T<n>: Trait`.
pub fn parse_bound_string(b: &[char]) -> (r: Option<(u32, GenericBound)>)
    ensures
        r == bound_string(b@),
{
    let _bl = b.len();
    let c = match first_char(b, ':') {
        Some(c) => c,
        None => return None,
    };
    let left = crate::rt::string_trim(&crate::text::sub_string(b, 0, c));
    let right = crate::rt::string_trim(&crate::text::sub_string(b, c + 1, b.len()));
    let lc = crate::text::string_chars(&left);
    let id = parse_generic_id(lc.as_slice());
    let bound = bound_from_name(&right);
    match (id, bound) {
        (Some(id), Some(bound)) => Some((id, bound)),
        _ => None,
    }
}

/// The bound named in a message of the form "the trait bound `T<n>: Trait`
/// is not satisfied".
pub open spec fn trait_bound_hint(m: Seq<char>) -> Option<(u32, GenericBound)> {
    match quoted_after(m, "trait bound `"@) {
        Some(b) => bound_string(b),
        None => None,
    }
}

/// Reads the bound from a "the trait bound `T<n>: Trait` is not satisfied"
/// message.
pub fn parse_trait_bound(message: &[char]) -> (r: Option<(u32, GenericBound)>)
    ensures
        r == trait_bound_hint(message@),
{
    match quoted_text(message, "trait bound `") {
        Some(b) => parse_bound_string(b.as_slice()),
        None => None,
    }
}

/// `Debug` when a trait's printed name is the `Debug` trait.
pub open spec fn debug_named(t: Seq<char>) -> Option<GenericBound> {
    if t == "Debug"@ || t == "std::fmt::Debug"@ { Some(GenericBound::Debug) } else { None }
}

fn debug_from_name(t: &[char]) -> (r: Option<GenericBound>)
    ensures
        r == debug_named(t@),
{
    if crate::text::chars_is(t, "Debug") || crate::text::chars_is(t, "std::fmt::Debug") {
        Some(GenericBound::Debug)
    } else {
        None
    }
}

/// The bound suggested by "consider restricting type parameter `T<n>` with
/// trait `Trait`": only `Debug` is recognised.
pub open spec fn restricting_hint(m: Seq<char>) -> Option<(u32, GenericBound)> {
    let open = "consider restricting type parameter `"@;
    match next_match(m, open, 0) {
        Some(k) => {
            let rest = m.subrange(k + open.len(), m.len() as int);
            match next_match(rest, seq!['`'], 0) {
                Some(e) => {
                    let param = rest.subrange(0, e);
                    let after = rest.subrange(e + 1, rest.len() as int);
                    match (quoted_after(after, "trait `"@), hint_generic_id(param)) {
                        (Some(t), Some(id)) => match debug_named(t) {
                            Some(b) => Some((id, b)),
                            None => None,
                        },
                        _ => None,
                    }
                },
                None => None,
            }
        },
        None => None,
    }
}

/// Reads the bound from a "consider restricting type parameter" message.
pub fn parse_restricting_type_param(message: &[char]) -> (r: Option<(u32, GenericBound)>)
    ensures
        r == restricting_hint(message@),
{
    let open = chars_of("consider restricting type parameter `");
    let _ml = message.len();
    proof {
        lemma_match_bounds(message@, open@);
    }
    let k = match find_from(message, open.as_slice(), 0) {
        Some(k) => k,
        None => return None,
    };
    let rest = crate::text::sub_chars(message, k + open.len(), message.len());
    let tick: Vec<char> = vec!['`'];
    proof {
        assert(tick@ =~= seq!['`']);
        lemma_match_bounds(rest@, tick@);
    }
    let e = match find_from(rest.as_slice(), tick.as_slice(), 0) {
        Some(e) => e,
        None => return None,
    };
    let param = crate::text::sub_chars(rest.as_slice(), 0, e);
    let after = crate::text::sub_chars(rest.as_slice(), e + 1, rest.len());
    let t = match quoted_text(after.as_slice(), "trait `") {
        Some(t) => t,
        None => return None,
    };
    let id = match parse_generic_id(param.as_slice()) {
        Some(id) => id,
        None => return None,
    };
    match debug_from_name(t.as_slice()) {
        Some(b) => Some((id, b)),
        None => None,
    }
}

/// The bound in a "`T<n>` doesn't implement `Trait`" message: the first
/// quoted text names the parameter, the second the trait; only `Debug` is
/// recognised.
pub open spec fn missing_impl_hint(m: Seq<char>) -> Option<(u32, GenericBound)> {
    if next_match(m, "doesn't implement"@, 0) is None {
        None
    } else {
        match crate::text::first_index(m, '`') {
            Some(a) => {
                let rest = m.subrange(a + 1, m.len() as int);
                match crate::text::first_index(rest, '`') {
                    Some(b) => {
                        let param = rest.subrange(0, b);
                        let after = rest.subrange(b + 1, rest.len() as int);
                        match crate::text::first_index(after, '`') {
                            Some(c) => {
                                let trest = after.subrange(c + 1, after.len() as int);
                                match crate::text::first_index(trest, '`') {
                                    Some(d) => match (hint_generic_id(param), debug_named(trest.subrange(0, d))) {
                                        (Some(id), Some(bound)) => Some((id, bound)),
                                        _ => None,
                                    },
                                    None => None,
                                }
                            },
                            None => None,
                        }
                    },
                    None => None,
                }
            },
            None => None,
        }
    }
}

/// Reads the bound from a "doesn't implement" message.
pub fn parse_missing_impl(message: &[char]) -> (r: Option<(u32, GenericBound)>)
    ensures
        r == missing_impl_hint(message@),
{
    let _ml = message.len();
    let needle = chars_of("doesn't implement");
    if find_from(message, needle.as_slice(), 0).is_none() {
        return None;
    }
    let a = match first_char(message, '`') {
        Some(a) => a,
        None => return None,
    };
    let rest = crate::text::sub_chars(message, a + 1, message.len());
    let b = match first_char(rest.as_slice(), '`') {
        Some(b) => b,
        None => return None,
    };
    let param = crate::text::sub_chars(rest.as_slice(), 0, b);
    let after = crate::text::sub_chars(rest.as_slice(), b + 1, rest.len());
    let c = match first_char(after.as_slice(), '`') {
        Some(c) => c,
        None => return None,
    };
    let trest = crate::text::sub_chars(after.as_slice(), c + 1, after.len());
    let d = match first_char(trest.as_slice(), '`') {
        Some(d) => d,
        None => return None,
    };
    let tname = crate::text::sub_chars(trest.as_slice(), 0, d);
    match (parse_generic_id(param.as_slice()), debug_from_name(tname.as_slice())) {
        (Some(id), Some(bound)) => Some((id, bound)),
        _ => None,
    }
}

/// Adds to `out` the bounds that a compiler message asks for, in the three
/// forms the message can take.
pub fn collect_bounds_from_text(text: &str, out: &mut Vec<(u32, Vec<GenericBound>)>)
    requires
        ids_unique(old(out)@),
    ensures
        ids_unique(final(out)@),
        bounds_grow(old(out)@, final(out)@),
        trait_bound_hint(text@) matches Some((id, b)) ==> has_bound(final(out)@, id, b),
        restricting_hint(text@) matches Some((id, b)) ==> has_bound(final(out)@, id, b),
        missing_impl_hint(text@) matches Some((id, b)) ==> has_bound(final(out)@, id, b),
{
    let cs = chars_of(text);
    let ghost o0 = out@;
    if let Some((id, b)) = parse_trait_bound(cs.as_slice()) {
        add_bound(out, id, b);
    }
    let ghost o1 = out@;
    if let Some((id, b)) = parse_restricting_type_param(cs.as_slice()) {
        add_bound(out, id, b);
    }
    let ghost o2 = out@;
    if let Some((id, b)) = parse_missing_impl(cs.as_slice()) {
        add_bound(out, id, b);
    }
    proof {
        if let Some((id, b)) = trait_bound_hint(text@) {
            assert(has_bound(o1, id, b));
            assert(has_bound(o2, id, b));
        }
        if let Some((id, b)) = restricting_hint(text@) {
            assert(has_bound(o2, id, b));
        }
    }
}

/// A message of the compiler, as `cargo --message-format=json` prints it:
/// its text and the messages attached to it.
#[derive(Debug)]
pub struct CompilerMessage {
    pub message: Option<String>,
    pub children: Vec<CompilerMessage>,
}

/// One line of `cargo --message-format=json` output: what kind of line it
/// is, and the compiler message it carries.
#[derive(Debug)]
pub struct CargoLine {
    pub reason: Option<String>,
    pub message: Option<CompilerMessage>,
}

/// The bounds that a message text asks for are recorded in `out`.
pub open spec fn text_recorded(t: Seq<char>, out: Seq<(u32, Vec<GenericBound>)>) -> bool {
    &&& (trait_bound_hint(t) matches Some((id, b)) ==> has_bound(out, id, b))
    &&& (restricting_hint(t) matches Some((id, b)) ==> has_bound(out, id, b))
    &&& (missing_impl_hint(t) matches Some((id, b)) ==> has_bound(out, id, b))
}

/// The bounds that a message and all messages attached to it ask for are
/// recorded in `out`.
pub open spec fn message_recorded(m: CompilerMessage, out: Seq<(u32, Vec<GenericBound>)>) -> bool
    decreases m,
{
    &&& (m.message matches Some(t) ==> text_recorded(t@, out))
    &&& forall|i: int| 0 <= i < m.children@.len() ==> message_recorded(#[trigger] m.children@[i], out)
}

/// Recorded bounds stay recorded as bounds are added.
pub proof fn lemma_message_recorded_grows(m: CompilerMessage, a: Seq<(u32, Vec<GenericBound>)>, b: Seq<(u32, Vec<GenericBound>)>)
    requires
        message_recorded(m, a),
        bounds_grow(a, b),
    ensures
        message_recorded(m, b),
    decreases m,
{
    if let Some(t) = m.message {
        if let Some((id, x)) = trait_bound_hint(t@) {
            assert(has_bound(a, id, x));
        }
        if let Some((id, x)) = restricting_hint(t@) {
            assert(has_bound(a, id, x));
        }
        if let Some((id, x)) = missing_impl_hint(t@) {
            assert(has_bound(a, id, x));
        }
    }
    assert forall|i: int| 0 <= i < m.children@.len() implies message_recorded(#[trigger] m.children@[i], b) by {
        assert(message_recorded(m.children@[i], a));
        lemma_message_recorded_grows(m.children@[i], a, b);
    }
}

/// Adds to `out` the bounds that a message and the messages attached to it
/// ask for.
pub fn collect_message_bounds(m: &CompilerMessage, out: &mut Vec<(u32, Vec<GenericBound>)>)
    requires
        ids_unique(old(out)@),
    ensures
        ids_unique(final(out)@),
        bounds_grow(old(out)@, final(out)@),
        message_recorded(*m, final(out)@),
    decreases m,
{
    let ghost o0 = out@;
    if let Some(t) = &m.message {
        collect_bounds_from_text(t.as_str(), out);
    }
    let ghost o1 = out@;
    let mut i: usize = 0;
    while i < m.children.len()
        invariant
            i <= m.children@.len(),
            ids_unique(out@),
            bounds_grow(o0, out@),
            bounds_grow(o1, out@),
            m.message matches Some(t) ==> text_recorded(t@, o1),
            forall|j: int| 0 <= j < i ==> message_recorded(#[trigger] m.children@[j], out@),
        decreases m.children@.len() - i,
    {
        let ghost before = out@;
        collect_message_bounds(&m.children[i], out);
        proof {
            assert forall|j: int| 0 <= j < i + 1 implies message_recorded(#[trigger] m.children@[j], out@) by {
                if j < i {
                    lemma_message_recorded_grows(m.children@[j], before, out@);
                }
            }
        }
        i = i + 1;
    }
    let ghost mm = *m;
    proof {
        if let Some(t) = mm.message {
            if let Some((id, x)) = trait_bound_hint(t@) {
                assert(has_bound(o1, id, x));
            }
            if let Some((id, x)) = restricting_hint(t@) {
                assert(has_bound(o1, id, x));
            }
            if let Some((id, x)) = missing_impl_hint(t@) {
                assert(has_bound(o1, id, x));
            }
        }
    }
}

/// A line that carries a compiler message.
pub open spec fn is_compiler_message(line: CargoLine) -> bool {
    line.reason matches Some(r) && r@ == "compiler-message"@
}

/// Adds to `hints` the bounds that the compiler messages among `lines` ask
/// for; other lines are skipped.
pub fn parse_diagnostics(lines: &Vec<CargoLine>, hints: &mut FeedbackHints)
    requires
        old(hints).wf(),
    ensures
        final(hints).wf(),
        bounds_grow(old(hints).bounds@, final(hints).bounds@),
        forall|i: int| 0 <= i < lines@.len() && is_compiler_message(#[trigger] lines@[i]) ==>
            (lines@[i].message matches Some(m) ==> message_recorded(m, final(hints).bounds@)),
{
    let ghost h0 = hints.bounds@;
    let mut i: usize = 0;
    while i < lines.len()
        invariant
            i <= lines@.len(),
            hints.wf(),
            bounds_grow(h0, hints.bounds@),
            forall|j: int| 0 <= j < i && is_compiler_message(#[trigger] lines@[j]) ==>
                (lines@[j].message matches Some(m) ==> message_recorded(m, hints.bounds@)),
        decreases lines@.len() - i,
    {
        let line = &lines[i];
        let is_msg = match &line.reason {
            Some(r) => str_is(r.as_str(), "compiler-message"),
            None => false,
        };
        if is_msg {
            if let Some(m) = &line.message {
                let ghost before = hints.bounds@;
                collect_message_bounds(m, &mut hints.bounds);
                proof {
                    assert forall|j: int| 0 <= j < i && is_compiler_message(#[trigger] lines@[j]) implies
                        (lines@[j].message matches Some(m2) ==> message_recorded(m2, hints.bounds@)) by {
                        if let Some(m2) = lines@[j].message {
                            lemma_message_recorded_grows(m2, before, hints.bounds@);
                        }
                    }
                }
            }
        }
        i = i + 1;
    }
}

// ---------------------------------------------------------------------------
// Combining and applying hints

/// The hints of `rustc` with those of `ra` added.
pub fn merge_feedback_hints(rustc: FeedbackHints, ra: FeedbackHints) -> (r: FeedbackHints)
    requires
        rustc.wf(),
    ensures
        r.wf(),
        bounds_grow(rustc.bounds@, r.bounds@),
        bounds_grow(ra.bounds@, r.bounds@),
{
    let mut out = rustc.bounds;
    let ghost o0 = out@;
    let mut i: usize = 0;
    while i < ra.bounds.len()
        invariant
            i <= ra.bounds@.len(),
            ids_unique(out@),
            bounds_grow(o0, out@),
            forall|id: u32, x: GenericBound| #[trigger] has_bound(ra.bounds@.subrange(0, i as int), id, x)
                ==> has_bound(out@, id, x),
        decreases ra.bounds@.len() - i,
    {
        let id = ra.bounds[i].0;
        let ghost before = out@;
        let mut k: usize = 0;
        while k < ra.bounds[i].1.len()
            invariant
                i < ra.bounds@.len(),
                id == ra.bounds@[i as int].0,
                k <= ra.bounds@[i as int].1@.len(),
                ids_unique(out@),
                bounds_grow(before, out@),
                forall|c: int| 0 <= c < k ==> #[trigger] has_bound(out@, id, ra.bounds@[i as int].1@[c]),
            decreases ra.bounds@[i as int].1@.len() - k,
        {
            let ghost o = out@;
            let b = clone_bound(&ra.bounds[i].1[k]);
            add_bound(&mut out, id, b);
            proof {
                lemma_has_bound_same(out@, id, b, ra.bounds@[i as int].1@[k as int]);
                assert forall|c: int| 0 <= c < k + 1 implies #[trigger] has_bound(out@, id, ra.bounds@[i as int].1@[c]) by {
                    if c < k {
                        assert(has_bound(o, id, ra.bounds@[i as int].1@[c]));
                    }
                }
            }
            k = k + 1;
        }
        proof {
            let done = ra.bounds@.subrange(0, i + 1);
            assert forall|id2: u32, x: GenericBound| #[trigger] has_bound(done, id2, x) implies has_bound(out@, id2, x) by {
                let (a, c) = choose|a: int, c: int| 0 <= a < done.len() && (#[trigger] done[a]).0 == id2
                    && 0 <= c < done[a].1@.len() && bound_same(#[trigger] done[a].1@[c], x);
                if a < i {
                    assert(ra.bounds@.subrange(0, i as int)[a] == done[a]);
                    assert(has_bound(ra.bounds@.subrange(0, i as int), id2, x));
                } else {
                    assert(has_bound(out@, id, done[a].1@[c]));
                    lemma_has_bound_same(out@, id, done[a].1@[c], x);
                }
            }
        }
        i = i + 1;
    }
    proof {
        assert(ra.bounds@.subrange(0, ra.bounds@.len() as int) =~= ra.bounds@);
    }
    FeedbackHints { bounds: out }
}

/// A recorded bound is recorded as any bound the same as it.
proof fn lemma_has_bound_same(bs: Seq<(u32, Vec<GenericBound>)>, id: u32, a: GenericBound, b: GenericBound)
    requires
        has_bound(bs, id, a),
        bound_same(a, b),
    ensures
        has_bound(bs, id, b),
{
    let (i, k) = choose|i: int, k: int| 0 <= i < bs.len() && (#[trigger] bs[i]).0 == id && 0 <= k < bs[i].1@.len()
        && bound_same(#[trigger] bs[i].1@[k], a);
    lemma_bound_same_trans(bs[i].1@[k], a, b);
}

proof fn lemma_bound_same_trans(a: GenericBound, b: GenericBound, c: GenericBound)
    requires
        bound_same(a, b),
        bound_same(b, c),
    ensures
        bound_same(a, c),
{
    if let (GenericBound::Push(x), GenericBound::Push(y), GenericBound::Push(z)) = (a, b, c) {
        crate::ast::lemma_ty_same_trans(x, y, z);
    }
}

/// The hinted bounds for `id`.
fn hinted<'a>(hints: &'a FeedbackHints, id: u32) -> (r: Option<&'a Vec<GenericBound>>) {
    let mut i: usize = 0;
    while i < hints.bounds.len()
        invariant
            i <= hints.bounds@.len(),
        decreases hints.bounds@.len() - i,
    {
        if hints.bounds[i].0 == id {
            return Some(&hints.bounds[i].1);
        }
        i = i + 1;
    }
    None
}

/// Adds to each function the hinted bounds of the type parameters in its
/// parameter and result types.
pub fn apply_feedback_hints(program: &mut TypecheckedProgram, hints: &FeedbackHints)
    requires
        old(program).bounds_wf(),
    ensures
        final(program).bounds_wf(),
        final(program).fn_env == old(program).fn_env,
        final(program).env == old(program).env,
        final(program).typed_fns@.len() == old(program).typed_fns@.len(),
        forall|i: int| 0 <= i < old(program).typed_fns@.len() ==> bounds_grow(
            old(program).typed_fns@[i].generic_bounds@, #[trigger] final(program).typed_fns@[i].generic_bounds@),
{
    let n = program.typed_fns.len();
    let mut i: usize = 0;
    while i < n
        invariant
            n == program.typed_fns@.len(),
            n == old(program).typed_fns@.len(),
            program.bounds_wf(),
            program.fn_env == old(program).fn_env,
            program.env == old(program).env,
            i <= n,
            forall|j: int| 0 <= j < n ==> bounds_grow(
                old(program).typed_fns@[j].generic_bounds@, #[trigger] program.typed_fns@[j].generic_bounds@),
        decreases n - i,
    {
        let ghost before = program.typed_fns@;
        assert(ids_unique(before[i as int].generic_bounds@));
        let mut f = program.typed_fns.remove(i);
        let mut ids: Vec<u32> = Vec::new();
        let mut k: usize = 0;
        while k < f.param_tys.len()
            invariant
                k <= f.param_tys@.len(),
            decreases f.param_tys@.len() - k,
        {
            collect_generic_ids(&f.param_tys[k].1, &mut ids);
            k = k + 1;
        }
        collect_generic_ids(&f.body.ty, &mut ids);
        let mut bounds: Vec<(u32, Vec<GenericBound>)> = Vec::new();
        std::mem::swap(&mut bounds, &mut f.generic_bounds);
        let ghost b0 = bounds@;
        let mut k: usize = 0;
        while k < ids.len()
            invariant
                k <= ids@.len(),
                ids_unique(bounds@),
                bounds_grow(b0, bounds@),
            decreases ids@.len() - k,
        {
            if let Some(list) = hinted(hints, ids[k]) {
                let mut c: usize = 0;
                while c < list.len()
                    invariant
                        k < ids@.len(),
                        c <= list@.len(),
                        ids_unique(bounds@),
                        bounds_grow(b0, bounds@),
                    decreases list@.len() - c,
                {
                    add_bound(&mut bounds, ids[k], clone_bound(&list[c]));
                    c = c + 1;
                }
            }
            k = k + 1;
        }
        f.generic_bounds = bounds;
        program.typed_fns.insert(i, f);
        proof {
            assert forall|j: int| 0 <= j < n implies bounds_grow(
                old(program).typed_fns@[j].generic_bounds@, #[trigger] program.typed_fns@[j].generic_bounds@) by {
                if j != i {
                    assert(program.typed_fns@[j] == before[j]);
                }
            }
            assert forall|j: int| 0 <= j < n implies ids_unique(#[trigger] program.typed_fns@[j].generic_bounds@) by {
                if j != i {
                    assert(program.typed_fns@[j] == before[j]);
                }
            }
        }
        i = i + 1;
    }
}

} // verus!
