//! The state of the encoder that rules read and update, and the view of the
//! current word that a rule is applied to.
use vstd::prelude::*;

use crate::char_struct::CharType;

verus! {

/// Encoder state carried from character to character and word to word.
pub struct EncoderState {
    /// The input holds Korean, so Roman sections are marked with the Roman
    /// indicator and terminator.
    pub english_indicator: bool,
    /// A Roman section is open.
    pub is_english: bool,
    /// A Roman section was interrupted and resumes with the continuation
    /// indicator.
    pub needs_english_continuation: bool,
    /// Capital indicators for the current uppercase run were written.
    pub is_big_english: bool,
    /// English dominates the document, so no Roman indicators are written.
    pub english_dominant_no_indicator: bool,
    /// An English passage wraps Korean spans and resumes after them.
    pub english_dominant_wrap_active: bool,
    /// For each open parenthesis, whether it was written as an English
    /// symbol.
    pub parenthesis_stack: Vec<bool>,
}

impl EncoderState {
    pub fn new(english_indicator: bool) -> (r: EncoderState)
        ensures
            r.english_indicator == english_indicator,
            !r.is_english,
            !r.needs_english_continuation,
            !r.is_big_english,
            !r.english_dominant_no_indicator,
            !r.english_dominant_wrap_active,
            r.parenthesis_stack@ == Seq::<bool>::empty(),
    {
        EncoderState {
            english_indicator,
            is_english: false,
            needs_english_continuation: false,
            is_big_english: false,
            english_dominant_no_indicator: false,
            english_dominant_wrap_active: false,
            parenthesis_stack: Vec::new(),
        }
    }
}

/// A rule's view of the character being encoded: the word it stands in,
/// its position, its class, the neighbouring words, and the encoder's output
/// and state.
pub struct RuleContext<'a> {
    pub word_chars: &'a [char],
    pub index: usize,
    pub char_type: &'a CharType,
    pub prev_word: &'a str,
    pub remaining_words: &'a [String],
    pub has_korean_char: bool,
    pub is_all_uppercase: bool,
    pub ascii_starts_at_beginning: bool,
    /// How many of the following characters the rule used up besides the
    /// current one.
    pub skip_count: &'a mut usize,
    pub state: &'a mut EncoderState,
    pub result: &'a mut Vec<u8>,
}

impl<'a> RuleContext<'a> {
    /// The context points at a character of its word.
    pub open spec fn wf(&self) -> bool {
        self.index < self.word_chars@.len()
    }

    pub open spec fn chars(&self) -> Seq<char> {
        self.word_chars@
    }

    pub open spec fn spec_prev_char(&self) -> Option<char> {
        if 0 < self.index && self.index <= self.word_chars@.len() {
            Some(self.word_chars@[self.index - 1])
        } else {
            None
        }
    }

    pub open spec fn spec_next_char(&self) -> Option<char> {
        if self.index + 1 < self.word_chars@.len() {
            Some(self.word_chars@[self.index + 1])
        } else {
            None
        }
    }

    /// Everything but the output, the skip count and the state is as in
    /// `other`.
    pub open spec fn same_input(&self, other: &RuleContext) -> bool {
        &&& self.word_chars@ == other.word_chars@
        &&& self.index == other.index
        &&& *self.char_type == *other.char_type
        &&& self.prev_word@ == other.prev_word@
        &&& self.remaining_words@ == other.remaining_words@
        &&& self.has_korean_char == other.has_korean_char
        &&& self.is_all_uppercase == other.is_all_uppercase
        &&& self.ascii_starts_at_beginning == other.ascii_starts_at_beginning
    }

    /// The character before the current one in the word.
    pub fn prev_char(&self) -> (r: Option<char>)
        ensures
            r == self.spec_prev_char(),
    {
        if self.index > 0 && self.index <= self.word_chars.len() {
            Some(self.word_chars[self.index - 1])
        } else {
            None
        }
    }

    /// The character after the current one in the word.
    pub fn next_char(&self) -> (r: Option<char>)
        ensures
            r == self.spec_next_char(),
    {
        if self.index < self.word_chars.len() && self.index + 1 < self.word_chars.len() {
            Some(self.word_chars[self.index + 1])
        } else {
            None
        }
    }

    /// The current character.
    pub fn current_char(&self) -> (r: char)
        requires
            self.wf(),
        ensures
            r == self.word_chars@[self.index as int],
    {
        self.word_chars[self.index]
    }

    /// The number of characters of the word.
    pub fn word_len(&self) -> (r: usize)
        ensures
            r == self.word_chars@.len(),
    {
        self.word_chars.len()
    }

    /// Writes one cell.
    pub fn emit(&mut self, cell: u8)
        ensures
            final(self).result@ == old(self).result@.push(cell),
            final(self).same_input(old(self)),
            *final(self).skip_count == *old(self).skip_count,
            *final(self).state == *old(self).state,
    {
        self.result.push(cell);
    }

    /// Writes cells in order.
    pub fn emit_slice(&mut self, cells: &[u8])
        ensures
            final(self).result@ == old(self).result@ + cells@,
            final(self).same_input(old(self)),
            *final(self).skip_count == *old(self).skip_count,
            *final(self).state == *old(self).state,
    {
        let mut i: usize = 0;
        while i < cells.len()
            invariant
                i <= cells@.len(),
                self.result@ == old(self).result@ + cells@.subrange(0, i as int),
                self.same_input(old(self)),
                *self.skip_count == *old(self).skip_count,
                *self.state == *old(self).state,
            decreases cells@.len() - i,
        {
            self.result.push(cells[i]);
            i += 1;
            assert(self.result@ == old(self).result@ + cells@.subrange(0, i as int));
        }
        assert(cells@.subrange(0, cells@.len() as int) == cells@);
    }
}

/// The output cells of a context.
pub open spec fn output_of(ctx: RuleContext) -> Seq<u8> {
    ctx.result@
}

} // verus!
