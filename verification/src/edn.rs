//! The structure of EDN data files: nested vectors of numbers, read from
//! bytes. Numbers keep their text; turning them into floating-point values
//! is left to the caller, as the library holds no floating-point numbers.

use vstd::prelude::*;
use crate::text::{concat3, usize_to_string};

verus! {

/// A node of an EDN data file: a vector, or a number as written.
#[derive(Debug)]
pub enum EdnNode {
    Vec(Vec<EdnNode>),
    Num(String),
}

/// A byte that separates items: a comma or white space.
pub open spec fn is_edn_space(b: u8) -> bool {
    b == 44 || b == 32 || b == 10 || b == 9 || b == 13
}

/// A byte that can start a number: a sign, a point or a digit.
pub open spec fn is_num_start(b: u8) -> bool {
    b == 43 || b == 45 || b == 46 || (48 <= b && b <= 57)
}

/// A byte that can continue a number: one that can start it, or an
/// exponent mark.
pub open spec fn is_num_byte(b: u8) -> bool {
    is_num_start(b) || b == 101 || b == 69
}

/// A byte that the structure can hold at all.
pub open spec fn edn_byte_ok(b: u8) -> bool {
    b == 91 || b == 93 || is_edn_space(b) || is_num_byte(b)
}

/// How many times `c` occurs in `s`.
pub open spec fn count_byte(s: Seq<u8>, c: u8) -> nat
    decreases s.len(),
{
    if s.len() == 0 {
        0
    } else {
        count_byte(s.drop_last(), c) + if s.last() == c { 1nat } else { 0nat }
    }
}

proof fn lemma_count_step(s: Seq<u8>, i: int, c: u8)
    requires
        0 <= i < s.len(),
    ensures
        count_byte(s.take(i + 1), c) == count_byte(s.take(i), c) + if s[i] == c { 1nat } else { 0nat },
{
    assert(s.take(i + 1).drop_last() =~= s.take(i));
    assert(s.take(i + 1).last() == s[i]);
}

fn space_byte(b: u8) -> (r: bool)
    ensures
        r == is_edn_space(b),
{
    b == 44 || b == 32 || b == 10 || b == 9 || b == 13
}

fn num_byte(b: u8) -> (r: bool)
    ensures
        r == is_num_byte(b),
{
    b == 43 || b == 45 || b == 46 || (48 <= b && b <= 57) || b == 101 || b == 69
}

fn num_start(b: u8) -> (r: bool)
    ensures
        r == is_num_start(b),
{
    b == 43 || b == 45 || b == 46 || (48 <= b && b <= 57)
}

/// The text of `bytes[a..b]`, each byte read as the character of the same
/// number.
fn ascii_text(bytes: &[u8], a: usize, b: usize) -> (s: String)
    requires
        a <= b <= bytes@.len(),
    ensures
        s@.len() == b - a,
{
    let mut s = String::new();
    let mut i = a;
    while i < b
        invariant
            a <= i <= b,
            b <= bytes@.len(),
            s@.len() == i - a,
        decreases b - i,
    {
        crate::text::push_char(&mut s, byte_char(bytes[i]));
        i = i + 1;
    }
    s
}

fn byte_char(b: u8) -> char {
    b as char
}

/// Reads the structure of an EDN data file: vectors in `[` `]`, numbers
/// made of signs, points, digits and exponent marks, separated by commas
/// or white space. One top-level form is returned as it is; several are
/// wrapped in a vector. A byte outside these, a `]` with no open vector, a
/// number outside every vector, an unclosed vector and an input with no
/// form are refused.
pub fn parse_edn_structure(input: &[u8]) -> (r: Result<EdnNode, String>)
    ensures
        (exists|i: int| 0 <= i < input@.len() && !edn_byte_ok(#[trigger] input@[i])) ==> r is Err,
        (forall|i: int| 0 <= i < input@.len() ==> is_edn_space(#[trigger] input@[i]))
            ==> (r matches Err(m) && m@ == "empty input"@),
        r is Ok ==> count_byte(input@, 91) == count_byte(input@, 93),
{
    let n = input.len();
    let mut stack: Vec<Vec<EdnNode>> = Vec::new();
    let mut roots: Vec<EdnNode> = Vec::new();
    let mut i: usize = 0;
    let ghost all_space = forall|j: int| 0 <= j < input@.len() ==> is_edn_space(#[trigger] input@[j]);
    proof {
        assert(input@.take(0) =~= Seq::<u8>::empty());
    }
    while i < n
        invariant
            n == input@.len(),
            i <= n,
            stack@.len() + count_byte(input@.take(i as int), 93) == count_byte(input@.take(i as int), 91),
            forall|j: int| 0 <= j < i ==> edn_byte_ok(#[trigger] input@[j]),
            all_space == forall|j: int| 0 <= j < input@.len() ==> is_edn_space(#[trigger] input@[j]),
            all_space ==> stack@.len() == 0 && roots@.len() == 0,
        decreases n - i,
    {
        let b = input[i];
        if b == 91 {
            proof { lemma_count_step(input@, i as int, 91); lemma_count_step(input@, i as int, 93); }
            stack.push(Vec::new());
            i = i + 1;
        } else if b == 93 {
            proof { lemma_count_step(input@, i as int, 91); lemma_count_step(input@, i as int, 93); }
            let vec = match stack.pop() {
                Some(v) => v,
                None => return Err(String::from_str("unbalanced ']'")),
            };
            let node = EdnNode::Vec(vec);
            match stack.pop() {
                Some(mut parent) => {
                    parent.push(node);
                    stack.push(parent);
                },
                None => roots.push(node),
            }
            i = i + 1;
        } else if space_byte(b) {
            proof { lemma_count_step(input@, i as int, 91); lemma_count_step(input@, i as int, 93); }
            i = i + 1;
        } else if num_start(b) {
            let start = i;
            proof { lemma_count_step(input@, i as int, 91); lemma_count_step(input@, i as int, 93); }
            i = i + 1;
            while i < n && num_byte(input[i])
                invariant
                    n == input@.len(),
                    start < i <= n,
                    stack@.len() + count_byte(input@.take(i as int), 93) == count_byte(input@.take(i as int), 91),
                    forall|j: int| 0 <= j < i ==> edn_byte_ok(#[trigger] input@[j]),
                    !all_space,
                decreases n - i,
            {
                proof { lemma_count_step(input@, i as int, 91); lemma_count_step(input@, i as int, 93); }
                i = i + 1;
            }
            let text = ascii_text(input, start, i);
            match stack.pop() {
                Some(mut parent) => {
                    parent.push(EdnNode::Num(text));
                    stack.push(parent);
                },
                None => return Err(String::from_str("number outside of vector")),
            }
        } else {
            let at = usize_to_string(i);
            let mut cs = String::new();
            crate::text::push_char(&mut cs, byte_char(b));
            let msg = concat3("unexpected char '", cs.as_str(), "' at ");
            let msg = concat3(msg.as_str(), at.as_str(), "");
            return Err(msg);
        }
    }
    proof {
        assert(input@.take(n as int) =~= input@);
    }
    if stack.len() > 0 {
        return Err(String::from_str("unclosed vector"));
    }
    if roots.len() == 0 {
        return Err(String::from_str("empty input"));
    }
    if roots.len() == 1 {
        match roots.pop() {
            Some(x) => return Ok(x),
            None => return Err(String::from_str("empty input")),
        }
    }
    Ok(EdnNode::Vec(roots))
}

} // verus!
