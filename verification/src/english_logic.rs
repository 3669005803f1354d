//! When a symbol belongs to a Roman section, and when a Roman section ends.
use vstd::prelude::*;

use crate::utils::{is_ascii_alphabetic, spec_is_ascii_alphabetic};

verus! {

/// Roman letters follow position `index` in the word.
pub open spec fn letters_follow(word: Seq<char>, index: int) -> bool {
    exists|j: int| index < j < word.len() && spec_is_ascii_alphabetic(#[trigger] word[j])
}

/// A symbol is written as an English symbol when the input marks Roman
/// sections, a Roman section is open, and Roman letters follow the symbol in
/// the same word, so that the section goes on through it.
pub open spec fn spec_should_render_symbol_as_english(
    english_indicator: bool,
    is_english: bool,
    word: Seq<char>,
    index: int,
) -> bool {
    english_indicator && is_english && letters_follow(word, index)
}

/// Whether the symbol at `index` is rendered inside the Roman section.
/// The open parentheses, the symbol itself and the following words do not
/// change the answer.
pub fn should_render_symbol_as_english(
    english_indicator: bool,
    is_english: bool,
    parenthesis_stack: &Vec<bool>,
    symbol: char,
    word_chars: &[char],
    index: usize,
    remaining_words: &[String],
) -> (r: bool)
    ensures
        r == spec_should_render_symbol_as_english(english_indicator, is_english, word_chars@, index as int),
{
    if !(english_indicator && is_english) {
        return false;
    }
    if index >= word_chars.len() {
        return false;
    }
    let mut j = index + 1;
    while j < word_chars.len()
        invariant
            index < j <= word_chars@.len(),
            english_indicator && is_english,
            forall|k: int| index < k < j ==> !spec_is_ascii_alphabetic(#[trigger] word_chars@[k]),
        decreases word_chars@.len() - j,
    {
        if is_ascii_alphabetic(word_chars[j]) {
            assert(spec_is_ascii_alphabetic(word_chars@[j as int]) && index < j < word_chars@.len());
            assert(letters_follow(word_chars@, index as int));
            return true;
        }
        j += 1;
    }
    false
}

/// Rules 33/34: the marks before which a Roman unit drops its terminator,
/// the Korean punctuation and the closing brackets.
pub open spec fn spec_skips_terminator(symbol: char) -> bool {
    symbol == ',' || symbol == '.' || symbol == '?' || symbol == '!' || symbol == ':'
        || symbol == ';' || symbol == ')' || symbol == ']' || symbol == '}'
}

/// Whether a Roman unit before `symbol` is written without its terminator.
pub fn should_skip_terminator_for_symbol(symbol: char) -> (r: bool)
    ensures
        r == spec_skips_terminator(symbol),
{
    symbol == ',' || symbol == '.' || symbol == '?' || symbol == '!' || symbol == ':'
        || symbol == ';' || symbol == ')' || symbol == ']' || symbol == '}'
}

} // verus!
