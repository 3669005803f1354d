//! An owned word with encoder state, from which rule contexts are taken;
//! for driving one rule on a word directly.
use vstd::prelude::*;

use crate::char_struct::{spec_char_type, CharType};
use crate::rules::context::{EncoderState, RuleContext};
use crate::utils::{is_ascii_alphabetic, is_ascii_lowercase, is_korean_char, spec_is_ascii_alphabetic, spec_is_ascii_lowercase, spec_is_korean_char};

verus! {

pub struct CtxOwned {
    pub word_chars: Vec<char>,
    pub char_types: Vec<CharType>,
    pub prev_word: String,
    pub remaining_words: Vec<String>,
    pub has_korean_char: bool,
    pub is_all_uppercase: bool,
    pub ascii_starts_at_beginning: bool,
    pub skip_count: usize,
    pub state: EncoderState,
    pub result: Vec<u8>,
}

/// The class of a character, a control character counting as a symbol.
pub open spec fn spec_classify(c: char) -> CharType {
    match spec_char_type(c) {
        Some(t) => t,
        None => CharType::Symbol(c),
    }
}

fn classify(c: char) -> (r: CharType)
    ensures
        r == spec_classify(c),
{
    match CharType::new(c) {
        Ok(t) => t,
        Err(_) => CharType::Symbol(c),
    }
}

/// The class of each character, a control character counting as a symbol.
fn classify_all(chars: &Vec<char>) -> (r: Vec<CharType>)
    ensures
        r@.len() == chars@.len(),
        forall|k: int| 0 <= k < chars@.len() ==> #[trigger] r@[k] == spec_classify(chars@[k]),
{
    let mut types: Vec<CharType> = Vec::new();
    let mut i: usize = 0;
    while i < chars.len()
        invariant
            i <= chars@.len(),
            types@.len() == i,
            forall|k: int| 0 <= k < i ==> #[trigger] types@[k] == spec_classify(chars@[k]),
        decreases chars@.len() - i,
    {
        types.push(classify(chars[i]));
        i += 1;
    }
    types
}

impl CtxOwned {
    /// The word `text`, with no neighbouring words, an empty output and a
    /// fresh state.
    pub fn for_text(text: &str, english_indicator: bool) -> (r: CtxOwned)
        ensures
            r.word_chars@ == text@,
            r.char_types@.len() == text@.len(),
            forall|k: int| 0 <= k < text@.len() ==> #[trigger] r.char_types@[k] == spec_classify(text@[k]),
            r.has_korean_char == exists|k: int| 0 <= k < text@.len() && spec_is_korean_char(#[trigger] text@[k]),
            r.is_all_uppercase == ((exists|k: int| 0 <= k < text@.len() && spec_is_ascii_alphabetic(#[trigger] text@[k]))
                && !(exists|k: int| 0 <= k < text@.len() && spec_is_ascii_lowercase(#[trigger] text@[k]))),
            r.ascii_starts_at_beginning == (text@.len() > 0 && spec_is_ascii_alphabetic(text@[0])),
            r.prev_word@ == Seq::<char>::empty(),
            r.remaining_words@.len() == 0,
            r.result@ == Seq::<u8>::empty(),
            r.skip_count == 0,
            r.state.english_indicator == english_indicator,
            !r.state.is_english,
            !r.state.english_dominant_wrap_active,
            r.state.parenthesis_stack@ == Seq::<bool>::empty(),
    {
        let mut word_chars: Vec<char> = Vec::new();
        for c in it: text.chars()
            invariant
                it.seq() == text@,
                word_chars@ == it.seq().take(it.index() as int),
        {
            proof {
                assert(it.seq().take(it.index() + 1) == it.seq().take(it.index() as int).push(c));
            }
            word_chars.push(c);
        }
        proof {
            assert(text@.take(text@.len() as int) == text@);
        }
        let char_types = classify_all(&word_chars);
        let mut has_korean_char = false;
        let mut has_ascii = false;
        let mut has_lower = false;
        let mut i: usize = 0;
        while i < word_chars.len()
            invariant
                i <= word_chars@.len(),
                has_korean_char == exists|k: int| 0 <= k < i && spec_is_korean_char(#[trigger] word_chars@[k]),
                has_ascii == exists|k: int| 0 <= k < i && spec_is_ascii_alphabetic(#[trigger] word_chars@[k]),
                has_lower == exists|k: int| 0 <= k < i && spec_is_ascii_lowercase(#[trigger] word_chars@[k]),
            decreases word_chars@.len() - i,
        {
            let c = word_chars[i];
            if is_korean_char(c) {
                has_korean_char = true;
            }
            if is_ascii_alphabetic(c) {
                has_ascii = true;
            }
            if is_ascii_lowercase(c) {
                has_lower = true;
            }
            i += 1;
        }
        let ascii_starts_at_beginning = word_chars.len() > 0 && is_ascii_alphabetic(word_chars[0]);
        CtxOwned {
            word_chars,
            char_types,
            prev_word: String::new(),
            remaining_words: Vec::new(),
            has_korean_char,
            is_all_uppercase: has_ascii && !has_lower,
            ascii_starts_at_beginning,
            skip_count: 0,
            state: EncoderState::new(english_indicator),
            result: Vec::new(),
        }
    }

    /// The same word after `word`.
    pub fn with_prev_word(self, word: &str) -> (r: CtxOwned)
        ensures
            r.prev_word@ == word@,
            r.word_chars@ == self.word_chars@,
            r.char_types@ == self.char_types@,
            r.remaining_words@ == self.remaining_words@,
    {
        let mut r = self;
        r.prev_word = String::from_str(word);
        r
    }

    /// The same word before `words`.
    pub fn with_remaining_words<const N: usize>(self, words: [&str; N]) -> (r: CtxOwned)
        ensures
            r.remaining_words@.len() == N,
            forall|i: int| 0 <= i < N ==> #[trigger] r.remaining_words@[i]@ == words@[i]@,
            r.word_chars@ == self.word_chars@,
            r.char_types@ == self.char_types@,
            r.prev_word@ == self.prev_word@,
    {
        let mut r = self;
        let mut remaining: Vec<String> = Vec::new();
        let mut i: usize = 0;
        while i < N
            invariant
                i <= N,
                words@.len() == N,
                remaining@.len() == i,
                forall|j: int| 0 <= j < i ==> #[trigger] remaining@[j]@ == words@[j]@,
            decreases N - i,
        {
            remaining.push(String::from_str(words[i]));
            i += 1;
        }
        r.remaining_words = remaining;
        r
    }

    /// The context of the character at `index`.
    pub fn ctx_at(&mut self, index: usize) -> (r: RuleContext<'_>)
        requires
            index < old(self).word_chars@.len(),
            old(self).char_types@.len() == old(self).word_chars@.len(),
        ensures
            r.word_chars@ == old(self).word_chars@,
            r.index == index,
            *r.char_type == old(self).char_types@[index as int],
            r.prev_word@ == old(self).prev_word@,
            r.remaining_words@ == old(self).remaining_words@,
            *r.state == old(self).state,
            r.result@ == old(self).result@,
            r.wf(),
    {
        RuleContext {
            word_chars: self.word_chars.as_slice(),
            index,
            char_type: &self.char_types[index],
            prev_word: self.prev_word.as_str(),
            remaining_words: self.remaining_words.as_slice(),
            has_korean_char: self.has_korean_char,
            is_all_uppercase: self.is_all_uppercase,
            ascii_starts_at_beginning: self.ascii_starts_at_beginning,
            skip_count: &mut self.skip_count,
            state: &mut self.state,
            result: &mut self.result,
        }
    }
}

} // verus!
