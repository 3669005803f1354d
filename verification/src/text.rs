//! Conversions between characters, code points and strings, and a character
//! property, that std offers
//! without a specification in vstd.
use vstd::prelude::*;

verus! {

/// Whether `code` is a Unicode scalar value (a code point that is not a
/// surrogate).
pub open spec fn is_scalar_value(code: u32) -> bool {
    code < 0xd800 || (0xe000 <= code && code < 0x110000)
}

/// `char::from_u32`: the character with the given scalar value, or `None`
/// for a surrogate or a value above U+10FFFF, as std documents it.
#[verifier::external_body]
pub(crate) fn char_from_u32(code: u32) -> (r: Option<char>)
    ensures
        is_scalar_value(code) ==> r == Some(code as char) && r->0 as u32 == code,
        !is_scalar_value(code) ==> r is None,
{
    char::from_u32(code)
}

/// `String::from_iter` over the borrowed characters: the `String` made of
/// them in order.
#[verifier::external_body]
pub(crate) fn string_from_chars(chars: &Vec<char>) -> (r: String)
    ensures
        r@ == chars@,
{
    String::from_iter(chars)
}

/// Whether `c` has the Uppercase property of Unicode.
pub uninterp spec fn is_uppercase_char(c: char) -> bool;

/// std `char::is_uppercase`: whether the character has Unicode's Uppercase
/// derived property. The property's table is not written out here; the
/// result is claimed to be a function of the character alone.
#[verifier::external_body]
pub(crate) fn char_is_uppercase(c: char) -> (r: bool)
    ensures
        r == is_uppercase_char(c),
{
    c.is_uppercase()
}

} // verus!
