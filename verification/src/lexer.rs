//! The lexer: source text to tokens with spans.

use vstd::prelude::*;
use crate::diag::{Diag, DslResult, Loc, Span};
use crate::text::{chars_of, sub_chars, string_from_chars, concat3, concat2, push_char};

verus! {

/// The kinds of tokens. A float literal keeps its source spelling.
#[derive(Debug, Clone, PartialEq)]
pub enum TokKind {
    LParen,
    RParen,
    LBrack,
    RBrack,
    LBrace,
    RBrace,
    LSet,
    Quote,
    SyntaxQuote,
    Unquote,
    UnquoteSplicing,
    Meta,
    Discard,
    Sym(String),
    Str(String),
    Int(i64),
    Float(String),
}

/// A token and the region of source it came from.
#[derive(Debug, Clone)]
pub struct Tok {
    pub kind: TokKind,
    pub span: Span,
}

/// Number of bytes in the UTF-8 encoding of `c`.
pub open spec fn utf8_len(c: char) -> nat {
    if (c as u32) < 0x80 { 1 } else if (c as u32) < 0x800 { 2 } else if (c as u32) < 0x10000 { 3 } else { 4 }
}

pub(crate) fn char_utf8_len(c: char) -> (n: usize)
    ensures
        n == utf8_len(c),
        1 <= n <= 4,
{
    let u = c as u32;
    if u < 0x80 { 1 } else if u < 0x800 { 2 } else if u < 0x10000 { 3 } else { 4 }
}

/// ASCII decimal digit.
pub open spec fn is_digit(c: char) -> bool {
    '0' <= c && c <= '9'
}

/// ASCII letter.
pub open spec fn is_alpha(c: char) -> bool {
    ('a' <= c && c <= 'z') || ('A' <= c && c <= 'Z')
}

/// Unicode `White_Space`, as `char::is_whitespace` documents it.
pub open spec fn is_space(c: char) -> bool {
    let u = c as u32;
    (0x09 <= u && u <= 0x0D) || u == 0x20 || u == 0x85 || u == 0xA0 || u == 0x1680
        || (0x2000 <= u && u <= 0x200A) || u == 0x2028 || u == 0x2029 || u == 0x202F
        || u == 0x205F || u == 0x3000
}

/// Operator characters that may start or continue a symbol.
pub open spec fn is_sym_punct(c: char) -> bool {
    c == '_' || c == '+' || c == '-' || c == '*' || c == '/' || c == '<' || c == '>' || c == '='
        || c == '!' || c == '?' || c == '&' || c == '|' || c == '.'
}

/// Characters that may start a symbol.
pub open spec fn is_sym_start(c: char) -> bool {
    is_alpha(c) || is_sym_punct(c) || c == ':'
}

/// Characters that may continue a symbol.
pub open spec fn is_sym_char(c: char) -> bool {
    is_alpha(c) || is_digit(c) || is_sym_punct(c) || c == ':' || c == '#'
}

fn digit(c: char) -> (b: bool)
    ensures
        b == is_digit(c),
{
    '0' <= c && c <= '9'
}

pub(crate) fn space(c: char) -> (b: bool)
    ensures
        b == is_space(c),
{
    let u = c as u32;
    (0x09 <= u && u <= 0x0D) || u == 0x20 || u == 0x85 || u == 0xA0 || u == 0x1680
        || (0x2000 <= u && u <= 0x200A) || u == 0x2028 || u == 0x2029 || u == 0x202F
        || u == 0x205F || u == 0x3000
}

fn sym_start(c: char) -> (b: bool)
    ensures
        b == is_sym_start(c),
{
    ('a' <= c && c <= 'z') || ('A' <= c && c <= 'Z') || c == '_' || c == '+' || c == '-'
        || c == '*' || c == '/' || c == '<' || c == '>' || c == '=' || c == '!' || c == '?'
        || c == '&' || c == '|' || c == '.' || c == ':'
}

fn sym_char(c: char) -> (b: bool)
    ensures
        b == is_sym_char(c),
{
    ('a' <= c && c <= 'z') || ('A' <= c && c <= 'Z') || ('0' <= c && c <= '9') || c == '_'
        || c == '+' || c == '-' || c == '*' || c == '/' || c == '<' || c == '>' || c == '='
        || c == '!' || c == '?' || c == '&' || c == '|' || c == '.' || c == ':' || c == '#'
}

/// All characters of `s` are decimal digits.
pub open spec fn all_digits(s: Seq<char>) -> bool {
    forall|i: int| 0 <= i < s.len() ==> is_digit(#[trigger] s[i])
}

/// The end of the run of digits in `s` that starts at `from`.
pub open spec fn digit_run(s: Seq<char>, from: int) -> int
    decreases s.len() - from,
{
    if from < 0 || from >= s.len() || !is_digit(s[from]) { from } else { digit_run(s, from + 1) }
}

/// Whether `s`, a scanned number that contains a '.' or an exponent marker,
/// is accepted by the documented grammar of `f64::from_str`:
/// `Sign? (Digit+ | Digit+ '.' Digit* | Digit* '.' Digit+) (('e'|'E') Sign? Digit+)?`.
pub open spec fn float_text_ok(s: Seq<char>) -> bool {
    let start: int = if s.len() > 0 && (s[0] == '-' || s[0] == '+') { 1 } else { 0 };
    let a = digit_run(s, start);
    let has_dot = a < s.len() && s[a] == '.';
    let m = if has_dot { digit_run(s, a + 1) } else { a };
    let mantissa_ok = if has_dot { m - start >= 2 } else { a > start };
    let exp_ok = m == s.len() || ((s[m] == 'e' || s[m] == 'E') && {
        let e = if m + 1 < s.len() && (s[m + 1] == '+' || s[m + 1] == '-') { m + 2 } else { m + 1 };
        let f = digit_run(s, e);
        f > e && f == s.len()
    });
    mantissa_ok && exp_ok
}

proof fn lemma_digit_run(s: Seq<char>, from: int)
    requires
        0 <= from <= s.len(),
    ensures
        from <= digit_run(s, from) <= s.len(),
        forall|k: int| from <= k < digit_run(s, from) ==> is_digit(s[k]),
        digit_run(s, from) < s.len() ==> !is_digit(s[digit_run(s, from)]),
    decreases s.len() - from,
{
    if from < s.len() && is_digit(s[from]) {
        lemma_digit_run(s, from + 1);
    }
}

/// Index of the first character of `s` in `[from, s.len())` that is not a digit.
fn skip_digits(s: &[char], from: usize) -> (r: usize)
    requires
        from <= s@.len(),
    ensures
        from <= r <= s@.len(),
        all_digits(s@.subrange(from as int, r as int)),
        r < s@.len() ==> !is_digit(s@[r as int]),
        r == digit_run(s@, from as int),
{
    let mut i = from;
    while i < s.len() && digit(s[i])
        invariant
            from <= i <= s@.len(),
            all_digits(s@.subrange(from as int, i as int)),
            digit_run(s@, from as int) == digit_run(s@, i as int),
        decreases s@.len() - i,
    {
        i = i + 1;
        assert forall|k: int| 0 <= k < s@.subrange(from as int, i as int).len()
            implies is_digit(#[trigger] s@.subrange(from as int, i as int)[k]) by {
            if k < i - 1 - from {
                assert(s@.subrange(from as int, i as int)[k] == s@.subrange(from as int, i - 1)[k]);
            }
        }
    }
    i
}

/// Decides `float_text_ok` for a scanned number.
fn float_text_valid(s: &[char]) -> (b: bool)
    ensures
        b == float_text_ok(s@),
{
    let start: usize = if s.len() > 0 && (s[0] == '-' || s[0] == '+') { 1 } else { 0 };
    let a = skip_digits(s, start);
    let has_dot = a < s.len() && s[a] == '.';
    let m = if has_dot { skip_digits(s, a + 1) } else { a };
    let mantissa_ok = if has_dot { m - start >= 2 } else { a > start };
    if !mantissa_ok {
        return false;
    }
    if m == s.len() {
        return true;
    }
    if s[m] != 'e' && s[m] != 'E' {
        return false;
    }
    let e = if m + 1 < s.len() && (s[m + 1] == '+' || s[m + 1] == '-') { m + 2 } else { m + 1 };
    let f = skip_digits(s, e);
    f > e && f == s.len()
}

/// The value of a nonempty string of decimal digits.
pub open spec fn digits_value(s: Seq<char>) -> int
    decreases s.len(),
{
    if s.len() == 0 {
        0
    } else {
        digits_value(s.drop_last()) * 10 + (s.last() as int - '0' as int)
    }
}

/// The value of an integer literal `-?digits`.
pub open spec fn int_text_value(s: Seq<char>) -> int {
    if s.len() > 0 && s[0] == '-' { -digits_value(s.drop_first()) } else { digits_value(s) }
}

pub(crate) proof fn lemma_digits_value_nonneg(s: Seq<char>)
    requires
        all_digits(s),
    ensures
        digits_value(s) >= 0,
    decreases s.len(),
{
    if s.len() > 0 {
        assert(all_digits(s.drop_last()));
        lemma_digits_value_nonneg(s.drop_last());
    }
}

pub(crate) proof fn lemma_digits_value_grows(s: Seq<char>, k: int)
    requires
        all_digits(s),
        0 <= k <= s.len(),
    ensures
        digits_value(s) >= digits_value(s.subrange(0, k)),
    decreases s.len(),
{
    if k < s.len() {
        assert(all_digits(s.drop_last()));
        lemma_digits_value_grows(s.drop_last(), k);
        assert(s.drop_last().subrange(0, k) =~= s.subrange(0, k));
        lemma_digits_value_nonneg(s.drop_last());
    } else {
        assert(s.subrange(0, k) =~= s);
    }
}

/// Parses `-?digits` as an i64; `None` when the value does not fit.
fn parse_int_text(s: &[char]) -> (r: Option<i64>)
    requires
        s@.len() > 0,
        s@[0] == '-' ==> s@.len() > 1 && all_digits(s@.drop_first()),
        s@[0] != '-' ==> all_digits(s@),
    ensures
        r matches Some(v) ==> v as int == int_text_value(s@),
        r is None ==> !(i64::MIN <= int_text_value(s@) <= i64::MAX),
{
    let neg = s[0] == '-';
    let start: usize = if neg { 1 } else { 0 };
    let ghost ds = s@.subrange(start as int, s@.len() as int);
    proof { if neg { assert(ds =~= s@.drop_first()); } else { assert(ds =~= s@); } }
    let limit: u64 = if neg { 9223372036854775808u64 } else { 9223372036854775807u64 };
    let mut acc: u64 = 0;
    let mut i = start;
    while i < s.len()
        invariant
            start <= i <= s@.len(),
            ds == s@.subrange(start as int, s@.len() as int),
            all_digits(ds),
            start == (if neg { 1usize } else { 0usize }),
            limit == (if neg { 9223372036854775808u64 } else { 9223372036854775807u64 }),
            neg == (s@[0] == '-'),
            s@.len() > 0,
            acc as int == digits_value(s@.subrange(start as int, i as int)),
            acc <= limit,
            9223372036854775807u64 <= limit <= 9223372036854775808u64,
        decreases s@.len() - i,
    {
        let ghost pre = s@.subrange(start as int, i as int);
        assert(is_digit(ds[(i - start) as int]));
        let d = (s[i] as u32 - '0' as u32) as u64;
        assert(s@.subrange(start as int, i + 1).drop_last() =~= pre);
        assert(s@.subrange(start as int, i + 1).last() == s@[i as int]);
        assert(d as int == s@[i as int] as int - '0' as int);
        assert(digits_value(s@.subrange(start as int, i + 1)) == acc * 10 + d);
        if acc > (limit - d) / 10 {
            proof {
                assert(acc * 10 + d > limit) by (nonlinear_arith)
                    requires acc > (limit - d) / 10, d <= 9, limit >= 9;
                assert(digits_value(s@.subrange(start as int, i + 1)) > limit);
                assert(ds.subrange(0, i + 1 - start) =~= s@.subrange(start as int, i + 1));
                lemma_digits_value_grows(ds, i + 1 - start);
                assert(digits_value(ds) > limit);
                if neg {
                    assert(ds =~= s@.drop_first());
                    assert(int_text_value(s@) == -digits_value(ds));
                } else {
                    assert(ds =~= s@);
                    assert(int_text_value(s@) == digits_value(ds));
                }
                assert(!(i64::MIN <= int_text_value(s@) <= i64::MAX));
            }
            return None;
        }
        assert(acc * 10 + d <= limit) by (nonlinear_arith)
            requires acc <= (limit - d) / 10, d <= 9, limit >= 9;
        acc = acc * 10 + d;
        i = i + 1;
    }
    assert(s@.subrange(start as int, s@.len() as int) == ds);
    if neg {
        if acc == 9223372036854775808u64 {
            Some(i64::MIN)
        } else {
            assert(acc < 9223372036854775808u64);
            let v = acc as i64;
            assert(v as int == acc as int);
            Some(-v)
        }
    } else {
        Some(acc as i64)
    }
}

/// Lexer state over the characters of the input.
struct Cursor {
    chars: Vec<char>,
    i: usize,
    byte: usize,
    line: usize,
    col: usize,
}

/// The length in bytes of the UTF-8 encoding of `s`.
pub open spec fn utf8_bytes(s: Seq<char>) -> nat
    decreases s.len(),
{
    if s.len() == 0 { 0 } else { utf8_bytes(s.drop_last()) + utf8_len(s.last()) }
}

/// A prefix takes no more bytes than the whole, and a longer prefix more.
proof fn lemma_utf8_prefix(s: Seq<char>, i: int, j: int)
    requires
        0 <= i <= j <= s.len(),
    ensures
        utf8_bytes(s.take(i)) <= utf8_bytes(s.take(j)),
        i < j ==> utf8_bytes(s.take(i)) < utf8_bytes(s.take(j)),
        utf8_bytes(s.take(j)) <= 4 * j,
    decreases j,
{
    if j > 0 {
        assert(s.take(j).drop_last() =~= s.take(j - 1));
        if i < j {
            lemma_utf8_prefix(s, i, j - 1);
        } else {
            lemma_utf8_prefix(s, j - 1, j - 1);
        }
    } else {
        assert(s.take(0) =~= Seq::<char>::empty());
    }
}

impl Cursor {
    spec fn wf(&self) -> bool {
        &&& self.chars@.len() < usize::MAX / 8
        &&& self.i <= self.chars@.len()
        &&& self.byte == utf8_bytes(self.chars@.take(self.i as int))
        &&& self.byte <= 4 * self.i
        &&& 1 <= self.line <= self.i + 1
        &&& 1 <= self.col <= self.i + 1
    }

    spec fn at_end(&self) -> bool {
        self.i >= self.chars@.len()
    }

    fn loc(&self) -> (l: Loc)
        ensures
            l.line == self.line,
            l.col == self.col,
            l.byte == self.byte,
    {
        Loc { line: self.line, col: self.col, byte: self.byte }
    }

    fn peek(&self) -> (c: Option<char>)
        requires
            self.wf(),
        ensures
            self.i < self.chars@.len() ==> c == Some(self.chars@[self.i as int]),
            self.i >= self.chars@.len() ==> c is None,
    {
        if self.i < self.chars.len() { Some(self.chars[self.i]) } else { None }
    }

    fn peek_at(&self, k: usize) -> (c: Option<char>)
        requires
            self.wf(),
            k <= 2,
        ensures
            self.i + k < self.chars@.len() ==> c == Some(self.chars@[self.i + k]),
            self.i + k >= self.chars@.len() ==> c is None,
    {
        if self.i + k < self.chars.len() { Some(self.chars[self.i + k]) } else { None }
    }

    /// Moves past one character that is not a newline.
    fn advance(&mut self)
        requires
            old(self).wf(),
            old(self).i < old(self).chars@.len(),
        ensures
            final(self).wf(),
            final(self).chars == old(self).chars,
            final(self).i == old(self).i + 1,
            final(self).line == old(self).line,
            final(self).col == old(self).col + 1,
            final(self).byte == old(self).byte + utf8_len(old(self).chars@[old(self).i as int]),
    {
        let n = char_utf8_len(self.chars[self.i]);
        proof {
            assert(self.chars@.take(self.i + 1).drop_last() =~= self.chars@.take(self.i as int));
        }
        self.byte = self.byte + n;
        self.i = self.i + 1;
        self.col = self.col + 1;
    }

    /// Moves past a newline.
    fn newline(&mut self)
        requires
            old(self).wf(),
            old(self).i < old(self).chars@.len(),
            old(self).chars@[old(self).i as int] == '\n',
        ensures
            final(self).wf(),
            final(self).chars == old(self).chars,
            final(self).i == old(self).i + 1,
            final(self).line == old(self).line + 1,
            final(self).col == 1,
            final(self).byte == old(self).byte + 1,
    {
        proof {
            assert(self.chars@.take(self.i + 1).drop_last() =~= self.chars@.take(self.i as int));
        }
        self.byte = self.byte + 1;
        self.i = self.i + 1;
        self.line = self.line + 1;
        self.col = 1;
    }
}

/// Tokens whose spans run forward through the input without overlapping,
/// within `n` bytes.
pub open spec fn spans_ordered(toks: Seq<Tok>, n: nat) -> bool {
    &&& forall|k: int| 0 <= k < toks.len() ==> {
        let sp = #[trigger] toks[k].span;
        sp.start.byte <= sp.end.byte <= n && sp.start.line >= 1 && sp.start.col >= 1
    }
    &&& forall|k: int| 0 <= k < toks.len() - 1 ==> (#[trigger] toks[k]).span.end.byte <= toks[k + 1].span.start.byte
}

/// The common postcondition of a scanning step: the cursor stays well
/// formed over the same input and moves forward.
spec fn stepped(old_cur: Cursor, new_cur: Cursor) -> bool {
    &&& new_cur.wf()
    &&& new_cur.chars == old_cur.chars
    &&& old_cur.i <= new_cur.i
    &&& old_cur.byte <= new_cur.byte
}

/// Skips a `#| ... |#` comment whose opening is at the cursor.
fn skip_block_comment(cur: &mut Cursor, start: Loc) -> (r: DslResult<()>)
    requires
        old(cur).wf(),
        old(cur).i + 1 < old(cur).chars@.len(),
    ensures
        stepped(*old(cur), *final(cur)),
        r is Ok ==> final(cur).i > old(cur).i,
{
    cur.advance();
    cur.advance();
    let mut closed = false;
    while cur.i < cur.chars.len()
        invariant
            stepped(*old(cur), *cur),
            cur.i > old(cur).i,
        decreases cur.chars@.len() - cur.i,
    {
        let ch = cur.chars[cur.i];
        if ch == '|' && cur.peek_at(1) == Some('#') {
            cur.advance();
            cur.advance();
            closed = true;
            break;
        }
        if ch == '\n' {
            cur.newline();
        } else {
            cur.advance();
        }
    }
    if !closed {
        return Err(Diag::new("unterminated block comment").with_span(Span { start, end: cur.loc() }));
    }
    Ok(())
}

/// The character that the escape `\\c` stands for inside a string.
pub open spec fn escaped_char(c: char) -> char {
    if c == 'n' {
        '\n'
    } else if c == 't' {
        '\t'
    } else if c == 'r' {
        '\r'
    } else {
        c
    }
}

/// The text of a string literal whose characters between the quotes are
/// `raw`: each escape (a backslash and the character after it) stands for
/// one character, and every other character is kept as it is.
pub open spec fn unescape(raw: Seq<char>) -> Seq<char>
    decreases raw.len(),
{
    if raw.len() == 0 {
        Seq::empty()
    } else if raw[0] == '\\' && raw.len() >= 2 {
        seq![escaped_char(raw[1])] + unescape(raw.skip(2))
    } else {
        seq![raw[0]] + unescape(raw.skip(1))
    }
}

/// `raw` splits into whole escapes and plain characters, with no backslash
/// left over at its end.
pub open spec fn whole_units(raw: Seq<char>) -> bool
    decreases raw.len(),
{
    if raw.len() == 0 {
        true
    } else if raw[0] == '\\' {
        raw.len() >= 2 && whole_units(raw.skip(2))
    } else {
        whole_units(raw.skip(1))
    }
}

proof fn lemma_unescape_plain(raw: Seq<char>, c: char)
    requires
        whole_units(raw),
        c != '\\',
    ensures
        whole_units(raw.push(c)),
        unescape(raw.push(c)) == unescape(raw).push(c),
    decreases raw.len(),
{
    if raw.len() == 0 {
        assert(raw.push(c)[0] == c);
        assert(raw.push(c).skip(1) =~= Seq::<char>::empty());
        assert(unescape(Seq::<char>::empty()) =~= Seq::<char>::empty());
        assert(whole_units(Seq::<char>::empty()));
        assert(unescape(raw.push(c)) =~= seq![c]);
    } else if raw[0] == '\\' {
        lemma_unescape_plain(raw.skip(2), c);
        assert(raw.push(c).skip(2) =~= raw.skip(2).push(c));
        assert(unescape(raw.push(c)) =~= unescape(raw).push(c));
    } else {
        lemma_unescape_plain(raw.skip(1), c);
        assert(raw.push(c).skip(1) =~= raw.skip(1).push(c));
        assert(unescape(raw.push(c)) =~= unescape(raw).push(c));
    }
}

proof fn lemma_unescape_escape(raw: Seq<char>, c: char)
    requires
        whole_units(raw),
    ensures
        whole_units(raw.push('\\').push(c)),
        unescape(raw.push('\\').push(c)) == unescape(raw).push(escaped_char(c)),
    decreases raw.len(),
{
    let t = raw.push('\\').push(c);
    if raw.len() == 0 {
        assert(t[0] == '\\' && t[1] == c && t.len() == 2);
        assert(t.skip(2) =~= Seq::<char>::empty());
        assert(unescape(Seq::<char>::empty()) =~= Seq::<char>::empty());
        assert(whole_units(Seq::<char>::empty()));
        assert(unescape(t) =~= seq![escaped_char(c)]);
    } else if raw[0] == '\\' {
        lemma_unescape_escape(raw.skip(2), c);
        assert(t.skip(2) =~= raw.skip(2).push('\\').push(c));
        assert(unescape(t) =~= unescape(raw).push(escaped_char(c)));
    } else {
        lemma_unescape_escape(raw.skip(1), c);
        assert(t.skip(1) =~= raw.skip(1).push('\\').push(c));
        assert(unescape(t) =~= unescape(raw).push(escaped_char(c)));
    }
}

/// Reads a string literal whose opening quote is at the cursor. Its text is
/// what the characters between the quotes spell, escapes replaced.
fn lex_string(cur: &mut Cursor, start: Loc) -> (r: DslResult<TokKind>)
    requires
        old(cur).wf(),
        old(cur).i < old(cur).chars@.len(),
    ensures
        stepped(*old(cur), *final(cur)),
        r is Ok ==> final(cur).i > old(cur).i,
        r matches Ok(k) ==> k is Str,
        r matches Ok(TokKind::Str(s)) ==> final(cur).i >= old(cur).i + 2
            && final(cur).chars@[final(cur).i - 1] == '"'
            && s@ == unescape(old(cur).chars@.subrange(old(cur).i + 1, final(cur).i - 1)),
{
    cur.advance();
    let mut s = String::new();
    let mut closed = false;
    let ghost from = cur.i;
    proof {
        assert(cur.chars@.subrange(from as int, cur.i as int) =~= Seq::<char>::empty());
    }
    while cur.i < cur.chars.len()
        invariant_except_break
            stepped(*old(cur), *cur),
            cur.i > old(cur).i,
            from == old(cur).i + 1,
            from <= cur.i,
            !closed,
            whole_units(cur.chars@.subrange(from as int, cur.i as int)),
            s@ == unescape(cur.chars@.subrange(from as int, cur.i as int)),
        ensures
            stepped(*old(cur), *cur),
            cur.i > old(cur).i,
            closed ==> cur.i >= from + 1 && cur.chars@[cur.i - 1] == '"'
                && s@ == unescape(cur.chars@.subrange(from as int, cur.i - 1)),
        decreases cur.chars@.len() - cur.i,
    {
        let ch = cur.chars[cur.i];
        if ch == '"' {
            cur.advance();
            closed = true;
            break;
        }
        if ch == '\\' {
            if cur.i + 1 >= cur.chars.len() {
                return Err(Diag::new("unterminated string escape").with_span(Span { start, end: cur.loc() }));
            }
            let nx = cur.chars[cur.i + 1];
            let ghost raw = cur.chars@.subrange(from as int, cur.i as int);
            if nx == 'n' { push_char(&mut s, '\n'); }
            else if nx == 't' { push_char(&mut s, '\t'); }
            else if nx == 'r' { push_char(&mut s, '\r'); }
            else if nx == '\\' { push_char(&mut s, '\\'); }
            else if nx == '"' { push_char(&mut s, '"'); }
            else {
                let end = Loc { line: cur.line, col: cur.col, byte: cur.byte + 2 };
                return Err(Diag::new("unknown string escape").with_span(Span { start, end }));
            }
            proof {
                lemma_unescape_escape(raw, nx);
                assert(cur.chars@.subrange(from as int, cur.i + 2) =~= raw.push('\\').push(nx));
            }
            cur.advance();
            cur.advance();
            continue;
        }
        if ch == '\n' {
            return Err(Diag::new("unterminated string literal").with_span(Span { start, end: cur.loc() }));
        }
        proof {
            let raw = cur.chars@.subrange(from as int, cur.i as int);
            lemma_unescape_plain(raw, ch);
            assert(cur.chars@.subrange(from as int, cur.i + 1) =~= raw.push(ch));
        }
        push_char(&mut s, ch);
        cur.advance();
    }
    if !closed {
        return Err(Diag::new("unterminated string literal").with_span(Span { start, end: cur.loc() }));
    }
    Ok(TokKind::Str(s))
}

/// Reads a number literal that starts at the cursor.
fn lex_number(cur: &mut Cursor, start: Loc) -> (r: DslResult<TokKind>)
    requires
        old(cur).wf(),
        old(cur).i < old(cur).chars@.len(),
        is_digit(old(cur).chars@[old(cur).i as int]) || (old(cur).chars@[old(cur).i as int] == '-'
            && old(cur).i + 1 < old(cur).chars@.len() && is_digit(old(cur).chars@[old(cur).i + 1])),
    ensures
        stepped(*old(cur), *final(cur)),
        r is Ok ==> final(cur).i > old(cur).i,
        r matches Ok(k) ==> k is Int || k is Float,
        r matches Ok(TokKind::Int(v)) ==> v as int == int_text_value(old(cur).chars@.subrange(old(cur).i as int, final(cur).i as int)),
        r matches Ok(TokKind::Float(t)) ==> t@ == old(cur).chars@.subrange(old(cur).i as int, final(cur).i as int),
{
    let from = cur.i;
    let mut saw_dot = false;
    let mut saw_exp = false;
    cur.advance();
    if cur.chars[from] == '-' {
        cur.advance();
    }
    proof {
        if cur.chars@[from as int] != '-' {
            assert(cur.chars@.subrange(from as int, cur.i as int) =~= seq![cur.chars@[from as int]]);
        } else {
            assert(cur.chars@.subrange(from + 1, cur.i as int) =~= seq![cur.chars@[from + 1]]);
        }
    }
    while cur.i < cur.chars.len()
        invariant
            stepped(*old(cur), *cur),
            from == old(cur).i,
            cur.i > from,
            cur.chars@[from as int] == '-' ==> cur.i >= from + 2,
            !saw_dot && !saw_exp ==> (
                (cur.chars@[from as int] == '-' ==> all_digits(cur.chars@.subrange(from + 1, cur.i as int)))
                && (cur.chars@[from as int] != '-' ==> all_digits(cur.chars@.subrange(from as int, cur.i as int)))),
        decreases cur.chars@.len() - cur.i,
    {
        let ch = cur.chars[cur.i];
        if digit(ch) {
        } else if ch == '.' && !saw_dot && !saw_exp {
            saw_dot = true;
        } else if (ch == 'e' || ch == 'E') && !saw_exp {
            saw_exp = true;
        } else if saw_exp && (ch == '+' || ch == '-') {
        } else {
            break;
        }
        proof {
            if !saw_dot && !saw_exp {
                if cur.chars@[from as int] == '-' {
                    assert forall|k: int| 0 <= k < cur.chars@.subrange(from + 1, cur.i + 1).len()
                        implies is_digit(#[trigger] cur.chars@.subrange(from + 1, cur.i + 1)[k]) by {
                        if k < cur.i - from - 1 {
                            assert(cur.chars@.subrange(from + 1, cur.i + 1)[k] == cur.chars@.subrange(from + 1, cur.i as int)[k]);
                        }
                    }
                } else {
                    assert forall|k: int| 0 <= k < cur.chars@.subrange(from as int, cur.i + 1).len()
                        implies is_digit(#[trigger] cur.chars@.subrange(from as int, cur.i + 1)[k]) by {
                        if k < cur.i - from {
                            assert(cur.chars@.subrange(from as int, cur.i + 1)[k] == cur.chars@.subrange(from as int, cur.i as int)[k]);
                        }
                    }
                }
            }
        }
        cur.advance();
    }
    let text = sub_chars(&cur.chars, from, cur.i);
    if saw_dot || saw_exp {
        if float_text_valid(text.as_slice()) {
            return Ok(TokKind::Float(string_from_chars(text.as_slice())));
        }
        let t = string_from_chars(text.as_slice());
        let msg = concat2("invalid float literal: ", t.as_str());
        return Err(Diag::from_message(msg).with_span(Span { start, end: cur.loc() }));
    }
    proof {
        if text@[0] == '-' {
            assert(text@.drop_first() =~= cur.chars@.subrange(from + 1, cur.i as int));
        } else {
            assert(text@ =~= cur.chars@.subrange(from as int, cur.i as int));
        }
    }
    match parse_int_text(text.as_slice()) {
        Some(v) => Ok(TokKind::Int(v)),
        None => {
            let t = string_from_chars(text.as_slice());
            let msg = concat2("invalid int literal: ", t.as_str());
            Err(Diag::from_message(msg).with_span(Span { start, end: cur.loc() }))
        }
    }
}

/// Reads a symbol that starts at the cursor; `<...>` may hold commas.
fn lex_symbol(cur: &mut Cursor) -> (k: TokKind)
    requires
        old(cur).wf(),
        old(cur).i < old(cur).chars@.len(),
        is_sym_start(old(cur).chars@[old(cur).i as int]),
    ensures
        stepped(*old(cur), *final(cur)),
        final(cur).i > old(cur).i,
        k matches TokKind::Sym(t) && t@ == old(cur).chars@.subrange(old(cur).i as int, final(cur).i as int),
{
    let from = cur.i;
    let mut depth: usize = 0;
    while cur.i < cur.chars.len()
        invariant_except_break
            stepped(*old(cur), *cur),
            from == old(cur).i,
            depth <= cur.i,
            from < cur.chars@.len(),
            cur.i == from ==> is_sym_start(cur.chars@[from as int]),
        ensures
            stepped(*old(cur), *cur),
            cur.i > from,
        decreases cur.chars@.len() - cur.i,
    {
        let ch = cur.chars[cur.i];
        if ch == '<' {
            depth = depth + 1;
            cur.advance();
            continue;
        }
        if ch == '>' {
            if depth > 0 {
                depth = depth - 1;
            }
            cur.advance();
            continue;
        }
        if ch == ',' && depth > 0 {
            cur.advance();
            continue;
        }
        if sym_char(ch) {
            cur.advance();
        } else {
            break;
        }
    }
    let text = sub_chars(&cur.chars, from, cur.i);
    TokKind::Sym(string_from_chars(text.as_slice()))
}

/// The punctuation token at the start of `s`, and how many characters it
/// takes; `None` where `s` starts no punctuation token.
pub open spec fn punct_token(s: Seq<char>) -> Option<(TokKind, nat)> {
    let c = s[0];
    let next: Option<char> = if s.len() > 1 { Some(s[1]) } else { None };
    if c == '#' && next == Some('_') { Some((TokKind::Discard, 2)) }
    else if c == '#' && next == Some('{') { Some((TokKind::LSet, 2)) }
    else if c == '(' { Some((TokKind::LParen, 1)) }
    else if c == ')' { Some((TokKind::RParen, 1)) }
    else if c == '[' { Some((TokKind::LBrack, 1)) }
    else if c == ']' { Some((TokKind::RBrack, 1)) }
    else if c == '{' { Some((TokKind::LBrace, 1)) }
    else if c == '}' { Some((TokKind::RBrace, 1)) }
    else if c == '\'' { Some((TokKind::Quote, 1)) }
    else if c == '`' { Some((TokKind::SyntaxQuote, 1)) }
    else if c == '~' && next == Some('@') { Some((TokKind::UnquoteSplicing, 2)) }
    else if c == '~' { Some((TokKind::Unquote, 1)) }
    else if c == '^' { Some((TokKind::Meta, 1)) }
    else { None }
}

/// `s` starts no token at all: no punctuation, string, number or symbol.
pub open spec fn starts_no_token(s: Seq<char>) -> bool {
    let c = s[0];
    &&& punct_token(s) is None
    &&& c != '"'
    &&& !is_digit(c)
    &&& !(c == '-' && s.len() > 1 && is_digit(s[1]))
    &&& !is_sym_start(c)
}

/// Reads the token that starts at the cursor (not whitespace or a comment).
fn lex_token(cur: &mut Cursor, start: Loc) -> (r: DslResult<TokKind>)
    requires
        old(cur).wf(),
        old(cur).i < old(cur).chars@.len(),
    ensures
        stepped(*old(cur), *final(cur)),
        r is Ok ==> final(cur).i > old(cur).i,
        punct_token(old(cur).chars@.skip(old(cur).i as int)) matches Some((k, n)) ==> r == Ok::<TokKind, Diag>(k)
            && final(cur).i == old(cur).i + n,
        starts_no_token(old(cur).chars@.skip(old(cur).i as int)) ==> r is Err
            && r->Err_0.message@ == "unexpected character: '"@ + seq![old(cur).chars@[old(cur).i as int]] + "'"@,
        r matches Ok(TokKind::Sym(t)) ==> t@ == old(cur).chars@.subrange(old(cur).i as int, final(cur).i as int),
        r matches Ok(TokKind::Str(t)) ==> final(cur).i >= old(cur).i + 2
            && t@ == unescape(old(cur).chars@.subrange(old(cur).i + 1, final(cur).i - 1)),
        r matches Ok(TokKind::Int(v)) ==> v as int == int_text_value(old(cur).chars@.subrange(old(cur).i as int, final(cur).i as int)),
        r matches Ok(TokKind::Float(t)) ==> t@ == old(cur).chars@.subrange(old(cur).i as int, final(cur).i as int),
{
    proof {
        let s = old(cur).chars@.skip(old(cur).i as int);
        assert(s[0] == old(cur).chars@[old(cur).i as int]);
        if s.len() > 1 {
            assert(s[1] == old(cur).chars@[old(cur).i + 1]);
        }
    }
    let c = cur.chars[cur.i];
    let next = cur.peek_at(1);
        let kind: TokKind;
        if c == '#' && next == Some('_') {
            cur.advance();
            cur.advance();
            kind = TokKind::Discard;
        } else if c == '#' && next == Some('{') {
            cur.advance();
            cur.advance();
            kind = TokKind::LSet;
        }
        else if c == '(' { cur.advance(); kind = TokKind::LParen; }
        else if c == ')' { cur.advance(); kind = TokKind::RParen; }
        else if c == '[' { cur.advance(); kind = TokKind::LBrack; }
        else if c == ']' { cur.advance(); kind = TokKind::RBrack; }
        else if c == '{' { cur.advance(); kind = TokKind::LBrace; }
        else if c == '}' { cur.advance(); kind = TokKind::RBrace; }
        else if c == '\'' { cur.advance(); kind = TokKind::Quote; }
        else if c == '`' { cur.advance(); kind = TokKind::SyntaxQuote; }
        else if c == '~' {
            if next == Some('@') {
                cur.advance();
                cur.advance();
                kind = TokKind::UnquoteSplicing;
            } else {
                cur.advance();
                kind = TokKind::Unquote;
            }
        }
        else if c == '^' { cur.advance(); kind = TokKind::Meta; }
        else if c == '"' {
            kind = lex_string(cur, start)?;
        }
        else if digit(c) || (c == '-' && next.is_some() && digit(next.unwrap())) {
            kind = lex_number(cur, start)?;
        }
        else if sym_start(c) {
            kind = lex_symbol(cur);
        }
        else {
            let n = char_utf8_len(c);
            let mut cs = String::new();
            push_char(&mut cs, c);
            let msg = concat3("unexpected character: '", cs.as_str(), "'");
            let end = Loc { line: cur.line, col: cur.col, byte: cur.byte + n };
            return Err(Diag::from_message(msg).with_span(Span { start, end }));
        }
    Ok(kind)
}

/// Skips a `;` comment up to (not including) the end of its line.
fn skip_line_comment(cur: &mut Cursor)
    requires
        old(cur).wf(),
        old(cur).i < old(cur).chars@.len(),
        old(cur).chars@[old(cur).i as int] == ';',
    ensures
        stepped(*old(cur), *final(cur)),
        final(cur).i > old(cur).i,
        final(cur).i == final(cur).chars@.len() || final(cur).chars@[final(cur).i as int] == '\n',
        (forall|k: int| old(cur).i < k < old(cur).chars@.len() ==> old(cur).chars@[k] != '\n')
            ==> final(cur).i == final(cur).chars@.len(),
{
    cur.advance();
    while cur.i < cur.chars.len() && cur.chars[cur.i] != '\n'
        invariant
            stepped(*old(cur), *cur),
            cur.i > old(cur).i,
        decreases cur.chars@.len() - cur.i,
    {
        cur.advance();
    }
}

proof fn lemma_push_ordered(toks: Seq<Tok>, t: Tok, n: nat)
    requires
        spans_ordered(toks, n),
        toks.len() > 0 ==> toks.last().span.end.byte <= t.span.start.byte,
        t.span.start.byte <= t.span.end.byte <= n,
        t.span.start.line >= 1,
        t.span.start.col >= 1,
    ensures
        spans_ordered(toks.push(t), n),
{
    let s2 = toks.push(t);
    assert forall|k: int| 0 <= k < s2.len() - 1 implies (#[trigger] s2[k]).span.end.byte <= s2[k + 1].span.start.byte by {
        if k < toks.len() - 1 {
            assert(s2[k] == toks[k] && s2[k + 1] == toks[k + 1]);
        } else {
            assert(s2[k] == toks.last());
        }
    }
    assert forall|k: int| 0 <= k < s2.len() implies {
        let sp = #[trigger] s2[k].span;
        sp.start.byte <= sp.end.byte <= n && sp.start.line >= 1 && sp.start.col >= 1
    } by {
        if k < toks.len() {
            assert(s2[k] == toks[k]);
        }
    }
}

/// The token `t` was read from the characters `i..j` of `input`, whose
/// bytes its span covers: a symbol spells them, a string is what the
/// characters between its quotes spell (see `unescape`), and where they start a
/// punctuation token, `t` is that token and spans exactly it.
pub open spec fn tok_text_at(input: Seq<char>, t: Tok, i: int, j: int) -> bool {
    &&& 0 <= i <= j <= input.len()
    &&& t.span.start.byte == utf8_bytes(input.take(i))
    &&& t.span.end.byte == utf8_bytes(input.take(j))
    &&& t.kind is Sym ==> t.kind->Sym_0@ == input.subrange(i, j)
    &&& t.kind is Str ==> j >= i + 2 && t.kind->Str_0@ == unescape(input.subrange(i + 1, j - 1))
    &&& t.kind is Int ==> t.kind->Int_0 as int == int_text_value(input.subrange(i, j))
    &&& t.kind is Float ==> t.kind->Float_0@ == input.subrange(i, j)
    &&& punct_token(input.skip(i)) matches Some((k, n)) ==> t.kind == k && j == i + n
}

/// A token was read from the input it spans.
pub open spec fn tok_text_ok(input: Seq<char>, t: Tok) -> bool {
    exists|i: int, j: int| #[trigger] tok_text_at(input, t, i, j)
}

proof fn lemma_push_tok_facts(input: Seq<char>, prev: Seq<Tok>, t: Tok, i: int, j: int)
    requires
        forall|k: int| 0 <= k < prev.len() ==> (#[trigger] prev[k]).span.start.byte < prev[k].span.end.byte,
        forall|k: int| 0 <= k < prev.len() ==> tok_text_ok(input, #[trigger] prev[k]),
        t.span.start.byte < t.span.end.byte,
        tok_text_at(input, t, i, j),
    ensures
        forall|k: int| 0 <= k < prev.push(t).len() ==> (#[trigger] prev.push(t)[k]).span.start.byte < prev.push(t)[k].span.end.byte,
        forall|k: int| 0 <= k < prev.push(t).len() ==> tok_text_ok(input, #[trigger] prev.push(t)[k]),
{
    let s = prev.push(t);
    assert forall|k: int| 0 <= k < s.len() implies (#[trigger] s[k]).span.start.byte < s[k].span.end.byte
        && tok_text_ok(input, s[k]) by {
        if k < prev.len() {
            assert(s[k] == prev[k]);
        } else {
            assert(s[k] == t);
        }
    }
}

/// `s` is one `;` comment with no line break: it starts with `;`.
pub open spec fn comment_line(s: Seq<char>) -> bool {
    &&& s.len() > 0
    &&& s[0] == ';'
    &&& forall|k: int| 0 <= k < s.len() ==> s[k] != '\n'
}

/// Splits source text into tokens.
///
/// Whitespace, commas, `;` line comments and `#| |#` block comments separate
/// tokens. A number is `-?` digits with at most one `.` and one exponent; it
/// becomes a float when it has a `.` or exponent, else an i64 literal.
/// Errors name the first offending construct.
pub fn lex(input: &str) -> (r: DslResult<Vec<Tok>>)
    ensures
        r matches Ok(toks) ==> spans_ordered(toks@, utf8_bytes(input@)),
        r matches Ok(toks) ==> forall|k: int| 0 <= k < toks@.len()
            ==> (#[trigger] toks@[k]).span.start.byte < toks@[k].span.end.byte,
        r matches Ok(toks) ==> forall|k: int| 0 <= k < toks@.len() ==> tok_text_ok(input@, #[trigger] toks@[k]),
        input@.len() < usize::MAX / 8 && comment_line(input@) ==> (r matches Ok(toks) && toks@.len() == 0),
        input@.len() >= usize::MAX / 8 ==> r is Err,
        input@.len() < usize::MAX / 8 && (forall|i: int| 0 <= i < input@.len() ==> is_space(#[trigger] input@[i]) || input@[i] == ',')
            ==> (r matches Ok(toks) && toks@.len() == 0),
{
    let chars = chars_of(input);
    if chars.len() >= usize::MAX / 8 {
        return Err(Diag::new("input too large"));
    }
    let mut cur = Cursor { chars, i: 0, byte: 0, line: 1, col: 1 };
    proof {
        assert(cur.chars@.take(0) =~= Seq::<char>::empty());
    }
    let mut toks: Vec<Tok> = Vec::new();
    while cur.i < cur.chars.len()
        invariant
            cur.wf(),
            cur.chars@ == input@,
            spans_ordered(toks@, utf8_bytes(input@)),
            forall|k: int| 0 <= k < toks@.len() ==> (#[trigger] toks@[k]).span.start.byte < toks@[k].span.end.byte,
            forall|k: int| 0 <= k < toks@.len() ==> tok_text_ok(input@, #[trigger] toks@[k]),
            toks@.len() > 0 ==> toks@.last().span.end.byte <= cur.byte,
            (forall|i: int| 0 <= i < input@.len() ==> is_space(#[trigger] input@[i]) || input@[i] == ',') ==> toks@.len() == 0,
            comment_line(input@) ==> toks@.len() == 0 && (cur.i == 0 || cur.i == input@.len()),
        decreases cur.chars@.len() - cur.i,
    {
        let c = cur.chars[cur.i];
        let start = cur.loc();
        if c == ';' {
            skip_line_comment(&mut cur);
            continue;
        }
        let next = cur.peek_at(1);
        if c == '#' && next == Some('|') {
            skip_block_comment(&mut cur, start)?;
            continue;
        }
        if c == ',' {
            cur.advance();
            continue;
        }
        if space(c) {
            if c == '\n' {
                cur.newline();
            } else {
                cur.advance();
            }
            continue;
        }
        let ghost i0 = cur.i;
        let kind = lex_token(&mut cur, start)?;
        let t = Tok { kind, span: Span { start, end: cur.loc() } };
        proof {
            lemma_utf8_prefix(input@, i0 as int, cur.i as int);
            lemma_utf8_prefix(input@, cur.i as int, input@.len() as int);
            assert(input@.take(input@.len() as int) =~= input@);
            lemma_push_ordered(toks@, t, utf8_bytes(input@));
        }
        let ghost prev = toks@;
        toks.push(t);
        proof {
            lemma_push_tok_facts(input@, prev, t, i0 as int, cur.i as int);
        }
    }
    Ok(toks)
}

} // verus!
