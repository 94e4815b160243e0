//! Type names as the analyzers spell them, and the pieces their messages are
//! made of.

use vstd::prelude::*;
use crate::text::{replace_all, str_replace, str_starts_with, str_eq, concat};

verus! {

broadcast use vstd::string::group_string_axioms;

/// The element type of an array type: `array[int]` gives `int` (every
/// `array[` and every `]` removed).
pub open spec fn element_of(t: Seq<char>) -> Seq<char> {
    replace_all(replace_all(t, "array["@, seq![]), "]"@, seq![])
}

/// Whether a type name is an array type.
pub open spec fn is_array_type(t: Seq<char>) -> bool {
    "array["@.is_prefix_of(t)
}

pub fn element_type(t: &str) -> (r: String)
    ensures
        r@ == element_of(t@),
{
    proof {
        reveal_strlit("array[");
        reveal_strlit("]");
        reveal_strlit("");
        assert(""@ =~= Seq::<char>::empty());
    }
    let a = str_replace(t, "array[", "");
    str_replace(a.as_str(), "]", "")
}

pub fn is_array(t: &str) -> (b: bool)
    ensures
        b == is_array_type(t@),
{
    str_starts_with(t, "array[")
}

pub fn same_text(t: &str, name: &str) -> (b: bool)
    ensures
        b == (t@ == name@),
{
    str_eq(t, name)
}

/// `a` + `x` + `b`.
pub fn msg3(a: &str, x: &str, b: &str) -> (m: String)
    ensures
        m@ == a@ + x@ + b@,
{
    let mut m = concat(a, x);
    m.append(b);
    m
}

/// `a` + `x` + `b` + `y` + `c`.
pub fn msg5(a: &str, x: &str, b: &str, y: &str, c: &str) -> (m: String)
    ensures
        m@ == a@ + x@ + b@ + y@ + c@,
{
    let mut m = msg3(a, x, b);
    m.append(y);
    m.append(c);
    m
}

} // verus!
