//! The class of an input character, which decides the rules that see it.
use vstd::prelude::*;

use crate::utils::{is_ascii_alphabetic, is_ascii_digit, is_korean_char, spec_is_ascii_alphabetic, spec_is_ascii_digit, spec_is_korean_char};

verus! {

#[derive(Clone, Copy, Debug, PartialEq, Eq, Structural)]
pub enum CharType {
    /// A Hangul syllable.
    Korean(char),
    /// A Hangul jamo standing alone.
    KoreanPart(char),
    /// A Roman letter.
    English(char),
    /// An ASCII digit.
    Number(char),
    /// Punctuation and other symbols.
    Symbol(char),
    /// An arithmetic operator or the equals sign.
    MathSymbol(char),
    /// A space, tab or line break.
    Space(char),
}

/// The operators that the mathematical-symbol rule writes.
pub open spec fn spec_is_math_symbol(c: char) -> bool {
    c == '+' || c == '\u{2212}' || c == '\u{d7}' || c == '\u{f7}' || c == '='
}

pub open spec fn spec_is_syllable(c: char) -> bool {
    0xac00 <= c as u32 && c as u32 <= 0xd7a3
}

/// The class of `c`; control characters have none.
pub open spec fn spec_char_type(c: char) -> Option<CharType> {
    if spec_is_syllable(c) {
        Some(CharType::Korean(c))
    } else if spec_is_korean_char(c) {
        Some(CharType::KoreanPart(c))
    } else if spec_is_ascii_alphabetic(c) {
        Some(CharType::English(c))
    } else if spec_is_ascii_digit(c) {
        Some(CharType::Number(c))
    } else if c == ' ' || c == '\t' || c == '\n' || c == '\r' {
        Some(CharType::Space(c))
    } else if spec_is_math_symbol(c) {
        Some(CharType::MathSymbol(c))
    } else if (c as u32) < 0x20 || c as u32 == 0x7f {
        None
    } else {
        Some(CharType::Symbol(c))
    }
}

impl CharType {
    /// Classifies a character; a control character is refused.
    pub fn new(c: char) -> (r: Result<CharType, String>)
        ensures
            r is Ok <==> spec_char_type(c) is Some,
            r matches Ok(t) ==> spec_char_type(c) == Some(t),
    {
        let code = c as u32;
        if 0xac00 <= code && code <= 0xd7a3 {
            Ok(CharType::Korean(c))
        } else if is_korean_char(c) {
            Ok(CharType::KoreanPart(c))
        } else if is_ascii_alphabetic(c) {
            Ok(CharType::English(c))
        } else if is_ascii_digit(c) {
            Ok(CharType::Number(c))
        } else if c == ' ' || c == '\t' || c == '\n' || c == '\r' {
            Ok(CharType::Space(c))
        } else if c == '+' || c == '\u{2212}' || c == '\u{d7}' || c == '\u{f7}' || c == '=' {
            Ok(CharType::MathSymbol(c))
        } else if code < 0x20 || code == 0x7f {
            Err(String::from_str("unsupported control character"))
        } else {
            Ok(CharType::Symbol(c))
        }
    }
}

} // verus!
