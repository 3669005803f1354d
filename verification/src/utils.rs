//! Character predicates shared by the rules.
use vstd::prelude::*;

verus! {

/// Hangul: syllables, conjoining jamo and compatibility jamo.
pub open spec fn spec_is_korean_char(c: char) -> bool {
    (0xac00 <= c as u32 && c as u32 <= 0xd7a3)
        || (0x1100 <= c as u32 && c as u32 <= 0x11ff)
        || (0x3131 <= c as u32 && c as u32 <= 0x318e)
}

#[verifier::when_used_as_spec(spec_is_korean_char)]
pub fn is_korean_char(c: char) -> (r: bool)
    returns
        spec_is_korean_char(c),
{
    let code = c as u32;
    (0xac00 <= code && code <= 0xd7a3) || (0x1100 <= code && code <= 0x11ff) || (0x3131 <= code
        && code <= 0x318e)
}

pub open spec fn spec_is_ascii_uppercase(c: char) -> bool {
    'A' <= c && c <= 'Z'
}

pub open spec fn spec_is_ascii_lowercase(c: char) -> bool {
    'a' <= c && c <= 'z'
}

pub open spec fn spec_is_ascii_alphabetic(c: char) -> bool {
    spec_is_ascii_uppercase(c) || spec_is_ascii_lowercase(c)
}

pub open spec fn spec_is_ascii_digit(c: char) -> bool {
    '0' <= c && c <= '9'
}

#[verifier::when_used_as_spec(spec_is_ascii_uppercase)]
pub fn is_ascii_uppercase(c: char) -> (r: bool)
    returns
        spec_is_ascii_uppercase(c),
{
    'A' <= c && c <= 'Z'
}

#[verifier::when_used_as_spec(spec_is_ascii_lowercase)]
pub fn is_ascii_lowercase(c: char) -> (r: bool)
    returns
        spec_is_ascii_lowercase(c),
{
    'a' <= c && c <= 'z'
}

#[verifier::when_used_as_spec(spec_is_ascii_alphabetic)]
pub fn is_ascii_alphabetic(c: char) -> (r: bool)
    returns
        spec_is_ascii_alphabetic(c),
{
    ('A' <= c && c <= 'Z') || ('a' <= c && c <= 'z')
}

#[verifier::when_used_as_spec(spec_is_ascii_digit)]
pub fn is_ascii_digit(c: char) -> (r: bool)
    returns
        spec_is_ascii_digit(c),
{
    '0' <= c && c <= '9'
}

/// Every character of `s` is an ASCII letter.
pub open spec fn all_ascii_alphabetic(s: Seq<char>) -> bool {
    forall|i: int| 0 <= i < s.len() ==> spec_is_ascii_alphabetic(#[trigger] s[i])
}

} // verus!
