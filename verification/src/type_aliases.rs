//! Short spellings of primitive type names.

use vstd::prelude::*;
use crate::text::str_is;

verus! {

/// The canonical name that a type alias stands for; other names stand for themselves.
pub open spec fn alias_target(name: Seq<char>) -> Seq<char> {
    if name == "int"@ { "i64"@ }
    else if name == "uint"@ { "u64"@ }
    else if name == "float"@ { "f64"@ }
    else if name == "double"@ { "f64"@ }
    else if name == "long"@ { "i64"@ }
    else if name == "ulong"@ { "u64"@ }
    else if name == "short"@ { "i16"@ }
    else if name == "ushort"@ { "u16"@ }
    else if name == "byte"@ { "u8"@ }
    else if name == "sbyte"@ { "i8"@ }
    else if name == "str"@ { "string"@ }
    else { name }
}

/// Maps an alias such as `int` or `byte` to the primitive name it stands for.
pub fn resolve_type_alias(name: &str) -> (r: &str)
    ensures
        r@ == alias_target(name@),
{
    if str_is(name, "int") { "i64" }
    else if str_is(name, "uint") { "u64" }
    else if str_is(name, "float") { "f64" }
    else if str_is(name, "double") { "f64" }
    else if str_is(name, "long") { "i64" }
    else if str_is(name, "ulong") { "u64" }
    else if str_is(name, "short") { "i16" }
    else if str_is(name, "ushort") { "u16" }
    else if str_is(name, "byte") { "u8" }
    else if str_is(name, "sbyte") { "i8" }
    else if str_is(name, "str") { "string" }
    else { name }
}

} // verus!
