//! Character classes that the token grammar of the normalizer is built on.

use vstd::prelude::*;
use vstd::string::StrSliceExecFns;

verus! {

/// Unicode `White_Space` property: the characters that `trim` removes and
/// that end a non-whitespace run.
pub open spec fn is_white_space(c: char) -> bool {
    let u = c as u32;
    (0x09 <= u && u <= 0x0d) || u == 0x20 || u == 0x85 || u == 0xa0 || u == 0x1680 || (0x2000
        <= u && u <= 0x200a) || u == 0x2028 || u == 0x2029 || u == 0x202f || u == 0x205f || u
        == 0x3000
}

/// Executable test of [`is_white_space`].
pub fn white_space(c: char) -> (r: bool)
    ensures
        r == is_white_space(c),
{
    let u = c as u32;
    (0x09 <= u && u <= 0x0d) || u == 0x20 || u == 0x85 || u == 0xa0 || u == 0x1680 || (0x2000
        <= u && u <= 0x200a) || u == 0x2028 || u == 0x2029 || u == 0x202f || u == 0x205f || u
        == 0x3000
}

/// Whether a character is a Unicode word character (`\w`): `Alphabetic`,
/// `Join_Control`, `Decimal_Number`, `Mark` or `Connector_Punctuation`.
pub uninterp spec fn is_word_char(c: char) -> bool;

/// The ASCII characters of the word class: `_`, digits and letters.
pub open spec fn is_ascii_word(c: char) -> bool {
    c == '_' || ('0' <= c && c <= '9') || ('a' <= c && c <= 'z') || ('A' <= c && c <= 'Z')
}

/// Relies on `regex_syntax::is_word_character`, the word class of regular
/// expressions; on ASCII it is exactly `[_0-9a-zA-Z]`.
#[verifier::external_body]
pub fn word_char(c: char) -> (r: bool)
    ensures
        r == is_word_char(c),
        (c as u32) < 0x80 ==> (r <==> is_ascii_word(c)),
{
    regex_syntax::is_word_character(c)
}

/// Whether a character is a Unicode decimal digit (`\d`, general category
/// `Decimal_Number`).
pub uninterp spec fn is_decimal_digit(c: char) -> bool;

/// Relies on the `regex` crate's class `\d`, which is `\p{Nd}`; on ASCII it
/// is exactly `[0-9]`.
#[verifier::external_body]
pub fn decimal_digit(c: char) -> (r: bool)
    ensures
        r == is_decimal_digit(c),
        (c as u32) < 0x80 ==> (r <==> is_ascii_digit(c)),
{
    let mut buf = [0u8; 4];
    regex::Regex::new(r"\d").unwrap().is_match(c.encode_utf8(&mut buf))
}

pub open spec fn is_ascii_digit(c: char) -> bool {
    '0' <= c && c <= '9'
}

pub open spec fn is_ascii_alpha(c: char) -> bool {
    ('a' <= c && c <= 'z') || ('A' <= c && c <= 'Z')
}

/// Characters allowed after the first letter of a URI scheme: `[A-Za-z0-9+\-.]`.
pub open spec fn is_scheme_char(c: char) -> bool {
    is_ascii_alpha(c) || is_ascii_digit(c) || c == '+' || c == '-' || c == '.'
}

/// The character classes whose runs the token grammar measures.
#[derive(Clone, Copy, PartialEq, Eq, Structural, Debug)]
pub enum CharClass {
    Word,
    /// Unicode decimal digits.
    Decimal,
    /// ASCII decimal digits.
    Digit,
    Scheme,
    NonSpace,
}

pub open spec fn in_class(k: CharClass, c: char) -> bool {
    match k {
        CharClass::Word => is_word_char(c),
        CharClass::Decimal => is_decimal_digit(c),
        CharClass::Digit => is_ascii_digit(c),
        CharClass::Scheme => is_scheme_char(c),
        CharClass::NonSpace => !is_white_space(c),
    }
}

pub fn class_member(k: CharClass, c: char) -> (r: bool)
    ensures
        r == in_class(k, c),
{
    match k {
        CharClass::Word => word_char(c),
        CharClass::Decimal => decimal_digit(c),
        CharClass::Digit => '0' <= c && c <= '9',
        CharClass::Scheme => ('a' <= c && c <= 'z') || ('A' <= c && c <= 'Z') || ('0' <= c && c
            <= '9') || c == '+' || c == '-' || c == '.',
        CharClass::NonSpace => !white_space(c),
    }
}

/// Length of the longest prefix of `s` whose characters are all in class `k`.
pub open spec fn run_len(s: Seq<char>, k: CharClass) -> nat
    decreases s.len(),
{
    if s.len() > 0 && in_class(k, s[0]) {
        1 + run_len(s.skip(1), k)
    } else {
        0
    }
}

/// Executable [`run_len`] of the suffix of `cs` that starts at `i`.
pub fn class_run(cs: &Vec<char>, i: usize, k: CharClass) -> (r: usize)
    requires
        i <= cs@.len(),
    ensures
        r == run_len(cs@.skip(i as int), k),
        i + r <= cs@.len(),
{
    let mut j: usize = i;
    while j < cs.len() && class_member(k, cs[j])
        invariant
            i <= j <= cs@.len(),
            run_len(cs@.skip(i as int), k) == (j - i) + run_len(cs@.skip(j as int), k),
        decreases cs@.len() - j,
    {
        assert(cs@.skip(j as int).skip(1) =~= cs@.skip(j + 1));
        j = j + 1;
    }
    j - i
}

/// The characters of `s`, in order.
pub fn chars_of(s: &str) -> (r: Vec<char>)
    ensures
        r@ == s@,
{
    let n = s.unicode_len();
    let mut r: Vec<char> = Vec::new();
    let mut i: usize = 0;
    while i < n
        invariant
            n == s@.len(),
            i <= n,
            r@ == s@.take(i as int),
        decreases n - i,
    {
        r.push(s.get_char(i));
        assert(s@.take(i + 1) =~= s@.take(i as int).push(s@[i as int]));
        i = i + 1;
    }
    assert(s@.take(n as int) =~= s@);
    r
}

} // verus!
