//! Character and string helpers shared by the lexer, the parsers and the
//! analyzers: decimal rendering, character classes, and the few std string
//! operations the library relies on.

use vstd::prelude::*;

verus! {

broadcast use vstd::string::group_string_axioms;

/// The ASCII digit for `d` (`0 <= d < 10`).
pub open spec fn digit_char(d: int) -> char {
    (d + 48) as char
}

/// Decimal spelling of `n`, most significant digit first, no leading zeros.
pub open spec fn decimal(n: nat) -> Seq<char>
    decreases n,
{
    if n < 10 {
        seq![digit_char(n as int)]
    } else {
        decimal(n / 10).push(digit_char((n % 10) as int))
    }
}

/// A number has no more digits than it is large, plus one.
pub proof fn lemma_decimal_len(n: nat)
    ensures
        1 <= decimal(n).len() <= n + 1,
    decreases n,
{
    if n >= 10 {
        lemma_decimal_len(n / 10);
    }
}

/// `'0'..='9'`.
pub open spec fn is_digit(c: char) -> bool {
    '0' <= c && c <= '9'
}

/// Numeric value of a run of ASCII digits, read left to right.
pub open spec fn digits_value(s: Seq<char>) -> nat
    decreases s.len(),
{
    if s.len() == 0 {
        0
    } else {
        digits_value(s.drop_last()) * 10 + ((s.last() as int) - 48) as nat
    }
}

/// Whether `c` has the Unicode `Alphabetic` property (what
/// `char::is_alphabetic` answers).
pub uninterp spec fn unicode_alphabetic(c: char) -> bool;

/// Whether `c` is Unicode `Alphabetic` or `Numeric` (what
/// `char::is_alphanumeric` answers).
pub uninterp spec fn unicode_alphanumeric(c: char) -> bool;

/// `str::replace`: scan left to right, and replace every occurrence of
/// `from` that does not overlap an earlier one; an empty `from` occurs before
/// every character and at the end.
pub open spec fn replace_all(s: Seq<char>, from: Seq<char>, to: Seq<char>) -> Seq<char>
    decreases s.len(),
{
    if from.len() == 0 {
        if s.len() == 0 {
            to
        } else {
            to + seq![s[0]] + replace_all(s.drop_first(), from, to)
        }
    } else if s.len() == 0 {
        s
    } else if from.is_prefix_of(s) {
        to + replace_all(s.skip(from.len() as int), from, to)
    } else {
        seq![s[0]] + replace_all(s.drop_first(), from, to)
    }
}

/// `c.is_ascii_digit()`.
pub fn char_is_digit(c: char) -> (b: bool)
    ensures
        b == is_digit(c),
{
    '0' <= c && c <= '9'
}

/// Whether `c` is alphabetic: on ASCII exactly the letters, elsewhere as
/// Unicode says.
pub open spec fn is_alphabetic(c: char) -> bool {
    if (c as u32) < 128 {
        ('a' <= c && c <= 'z') || ('A' <= c && c <= 'Z')
    } else {
        unicode_alphabetic(c)
    }
}

/// Whether `c` is alphanumeric: on ASCII exactly the letters and digits,
/// elsewhere as Unicode says.
pub open spec fn is_alphanumeric(c: char) -> bool {
    if (c as u32) < 128 {
        ('a' <= c && c <= 'z') || ('A' <= c && c <= 'Z') || ('0' <= c && c <= '9')
    } else {
        unicode_alphanumeric(c)
    }
}

/// Calls `char::is_alphabetic`; the contract names its answer, and on ASCII
/// states it: exactly the letters `a`-`z` and `A`-`Z`.
#[verifier::external_body]
pub(crate) fn char_is_alphabetic(c: char) -> (b: bool)
    ensures
        b == unicode_alphabetic(c),
        (c as u32) < 128 ==> (b <==> (('a' <= c && c <= 'z') || ('A' <= c && c <= 'Z'))),
{
    c.is_alphabetic()
}

/// Calls `char::is_alphanumeric`; the contract names its answer, and on
/// ASCII states it: exactly the letters and the digits `0`-`9`.
#[verifier::external_body]
pub(crate) fn char_is_alphanumeric(c: char) -> (b: bool)
    ensures
        b == unicode_alphanumeric(c),
        (c as u32) < 128 ==> (b <==> (('a' <= c && c <= 'z') || ('A' <= c && c <= 'Z') || ('0' <= c && c <= '9'))),
{
    c.is_alphanumeric()
}

/// Calls `String::push`: the string grows by the one character.
#[verifier::external_body]
pub(crate) fn push_char(s: &mut String, c: char)
    ensures
        final(s)@ == old(s)@.push(c),
{
    s.push(c);
}

/// Whether both hold the same characters.
pub(crate) fn str_eq(a: &str, b: &str) -> (r: bool)
    ensures
        r == (a@ == b@),
{
    a.to_owned() == b.to_owned()
}

/// Whether `sub` stands in `s` from position `k` on.
pub fn matches_at(s: &Vec<char>, sub: &Vec<char>, k: usize) -> (b: bool)
    requires
        k + sub.len() <= s.len(),
    ensures
        b == (s@.subrange(k as int, k + sub.len()) == sub@),
{
    let mut j: usize = 0;
    while j < sub.len()
        invariant
            k + sub.len() <= s.len(),
            j <= sub.len(),
            forall|i: int| 0 <= i < j ==> s@[k + i] == sub@[i],
        decreases sub.len() - j,
    {
        if s[k + j] != sub[j] {
            assert(s@.subrange(k as int, k + sub.len())[j as int] != sub@[j as int]);
            return false;
        }
        j += 1;
    }
    assert(s@.subrange(k as int, k + sub.len()) =~= sub@);
    true
}

/// Whether `s` starts with `prefix`.
pub(crate) fn str_starts_with(s: &str, prefix: &str) -> (r: bool)
    ensures
        r == prefix@.is_prefix_of(s@),
{
    let sv = chars_of(s);
    let pv = chars_of(prefix);
    if pv.len() > sv.len() {
        false
    } else {
        let b = matches_at(&sv, &pv, 0);
        assert(b == (pv@ =~= sv@.subrange(0, pv@.len() as int)));
        b
    }
}

/// Calls `str::replace` with a string pattern.
#[verifier::external_body]
pub(crate) fn str_replace(s: &str, from: &str, to: &str) -> (r: String)
    ensures
        r@ == replace_all(s@, from@, to@),
{
    s.replace(from, to)
}

/// A fresh `String` holding the characters of `s`.
pub fn owned(s: &str) -> (r: String)
    ensures
        r@ == s@,
{
    s.to_string()
}

/// `a` followed by `b`, as a new string.
pub fn concat(a: &str, b: &str) -> (r: String)
    ensures
        r@ == a@ + b@,
{
    let mut r = a.to_string();
    r.append(b);
    r
}

/// The characters of `s`, in order.
pub fn chars_of(s: &str) -> (v: Vec<char>)
    ensures
        v@ == s@,
{
    let mut v: Vec<char> = Vec::new();
    for c in it: s.chars()
        invariant
            v@ == it.seq().take(it.index() as int),
            it.seq() == s@,
    {
        v.push(c);
    }
    v
}

/// A `String` made of the characters of `v[from..to]`.
pub fn string_from_chars(v: &Vec<char>, from: usize, to: usize) -> (s: String)
    requires
        from <= to <= v@.len(),
    ensures
        s@ == v@.subrange(from as int, to as int),
{
    let mut s = String::new();
    let mut i: usize = from;
    while i < to
        invariant
            from <= i <= to <= v@.len(),
            s@ == v@.subrange(from as int, i as int),
        decreases to - i,
    {
        push_char(&mut s, v[i]);
        assert(v@.subrange(from as int, i + 1) == v@.subrange(from as int, i as int).push(v@[i as int]));
        i = i + 1;
    }
    s
}

/// Decimal spelling of `n`.
pub fn decimal_string(n: u64) -> (s: String)
    ensures
        s@ == decimal(n as nat),
    decreases n,
{
    if n < 10 {
        let mut s = String::new();
        push_char(&mut s, digit_of(n));
        s
    } else {
        let mut s = decimal_string(n / 10);
        push_char(&mut s, digit_of(n % 10));
        s
    }
}

/// The ASCII digit for `d`.
pub fn digit_of(d: u64) -> (c: char)
    requires
        d < 10,
    ensures
        c == digit_char(d as int),
{
    let b: u8 = 48 + d as u8;
    b as char
}

} // verus!
