//! 제28항 — 로마자는 ｢통일영어점자 규정｣에 따라 다음과 같이 적는다.
//!
//! English letters are mapped to braille using the UEB (Unified English Braille) system.
//! Uppercase indicators: single ⠠(32), word ⠠⠠(32,32), passage ⠠⠠⠠(32,32,32).
//!
//! Reference: 2024 Korean Braille Standard, Chapter 4, Section 10, Article 28
use vstd::prelude::*;

use crate::text::{char_is_uppercase, is_uppercase_char};

use crate::char_struct::CharType;
use crate::rules::context::{EncoderState, RuleContext};
use crate::rules::english_ueb::{
    encode_korean_unit, encode_korean_word, letter_cell, requires_grade1_indicator,
    spec_encode_korean_word, spec_is_letter_shortform, spec_korean_unit, spec_letter_cell,
    not_a_letter_message, KoreanPrefixInput,
};
use crate::rules::korean::rule_29::{ENGLISH_CONTINUATION, ROMAN_INDICATOR};
use crate::rules::traits::{BrailleRule, Phase, RuleResult};
use crate::rules::RuleMeta;
use crate::utils::{
    all_ascii_alphabetic, is_ascii_alphabetic, is_ascii_digit, is_ascii_lowercase,
    is_ascii_uppercase, spec_is_ascii_alphabetic, spec_is_ascii_digit, spec_is_ascii_lowercase,
    spec_is_ascii_uppercase,
};

verus! {

/// `s` is a word of ASCII letters only (and not empty).
pub open spec fn spec_is_nonempty_ascii_word(s: Seq<char>) -> bool {
    s.len() > 0 && all_ascii_alphabetic(s)
}

/// Whether a word is made of ASCII letters only and is not empty.
pub fn is_nonempty_ascii_word(word: &str) -> (r: bool)
    ensures
        r == spec_is_nonempty_ascii_word(word@),
{
    let n = word.unicode_len();
    if n == 0 {
        return false;
    }
    let mut i: usize = 0;
    while i < n
        invariant
            n == word@.len(),
            i <= n,
            forall|j: int| 0 <= j < i ==> spec_is_ascii_alphabetic(#[trigger] word@[j]),
        decreases n - i,
    {
        if !is_ascii_alphabetic(word.get_char(i)) {
            return false;
        }
        i += 1;
    }
    true
}

pub fn meta() -> (r: RuleMeta)
    ensures
        r.section@ == "28"@,
        r.subsection is None,
        r.name@ == "english_encoding"@,
        r.standard_ref@ == "2024 Korean Braille Standard, Ch.4 Sec.10 Art.28"@,
        r.description@ == "English letters encoded per UEB (Unified English Braille)"@,
{
    RuleMeta {
        section: "28",
        subsection: None,
        name: "english_encoding",
        standard_ref: "2024 Korean Braille Standard, Ch.4 Sec.10 Art.28",
        description: "English letters encoded per UEB (Unified English Braille)",
    }
}

/// Single uppercase indicator (대문자 기호표).
pub const UPPERCASE_SINGLE: u8 = 32;

/// Encode a single English letter to braille: its alphabet sign, the same
/// for both cases.
pub fn apply(ch: char) -> (r: Result<u8, String>)
    ensures
        r is Ok <==> spec_is_ascii_alphabetic(ch),
        r matches Ok(cell) ==> cell == spec_letter_cell(ch),
{
    if is_ascii_alphabetic(ch) {
        Ok(letter_cell(ch))
    } else {
        Err(String::from_str("not an English letter"))
    }
}

/// The uppercase indicators to prepend: passage ⠠⠠⠠ from the third
/// consecutive uppercase word on, word ⠠⠠ for an all-uppercase word, single ⠠
/// for one capital letter, none otherwise.
pub fn uppercase_indicators(
    is_single_uppercase: bool,
    is_word_all_uppercase: bool,
    consecutive_uppercase_words: u8,
) -> (r: Vec<u8>)
    ensures
        consecutive_uppercase_words >= 3 ==> r@ == seq![32u8, 32u8, 32u8],
        consecutive_uppercase_words < 3 && is_word_all_uppercase ==> r@ == seq![32u8, 32u8],
        consecutive_uppercase_words < 3 && !is_word_all_uppercase && is_single_uppercase ==> r@
            == seq![32u8],
        consecutive_uppercase_words < 3 && !is_word_all_uppercase && !is_single_uppercase ==> r@
            == Seq::<u8>::empty(),
{
    if consecutive_uppercase_words >= 3 {
        vec![32, 32, 32]
    } else if is_word_all_uppercase {
        vec![32, 32]
    } else if is_single_uppercase {
        vec![32]
    } else {
        Vec::new()
    }
}

// ---------------------------------------------------------------------------
// What the rule decides, over the word `s` and the position `i`.

pub open spec fn prev_of(s: Seq<char>, i: int) -> Option<char> {
    if 0 < i && i <= s.len() {
        Some(s[i - 1])
    } else {
        None
    }
}

/// The end of the run of ASCII letters that starts at `i`.
pub open spec fn alpha_run_end(s: Seq<char>, i: int) -> int
    decreases s.len() - i,
{
    if i < 0 || i >= s.len() {
        if i < 0 { 0 } else { i }
    } else if !spec_is_ascii_alphabetic(s[i]) {
        i
    } else {
        alpha_run_end(s, i + 1)
    }
}

/// The current letter begins a run of ASCII letters.
pub open spec fn starts_ascii_run(s: Seq<char>, i: int, c: char) -> bool {
    spec_is_ascii_alphabetic(c) && (prev_of(s, i) is None || !spec_is_ascii_alphabetic(
        prev_of(s, i)->0,
    ))
}

pub open spec fn follows_apostrophe(s: Seq<char>, i: int) -> bool {
    prev_of(s, i) == Some('\'') || prev_of(s, i) == Some('\u{2019}')
}

/// Rule 37: a run of ASCII letters is encoded in one pass, unless it is a
/// lower-case continuation after an apostrophe.
pub open spec fn takes_run_path(s: Seq<char>, i: int, c: char) -> bool {
    starts_ascii_run(s, i, c) && (!follows_apostrophe(s, i) || spec_is_ascii_uppercase(c))
}

/// The token rule already wrote capitals-word mode for the initial
/// uppercase letters-sequence of the word.
pub open spec fn caps_already_emitted(ctx: RuleContext) -> bool {
    ctx.index == 0 && ctx.is_all_uppercase && ctx.word_chars@.len() >= 2
        && ctx.ascii_starts_at_beginning
}

pub open spec fn all_lower(s: Seq<char>) -> bool {
    forall|j: int| 0 <= j < s.len() ==> spec_is_ascii_lowercase(#[trigger] s[j])
}

pub open spec fn all_upper(s: Seq<char>) -> bool {
    forall|j: int| 0 <= j < s.len() ==> spec_is_ascii_uppercase(#[trigger] s[j])
}

pub open spec fn prev_is_ascii_word(ctx: RuleContext) -> bool {
    spec_is_nonempty_ascii_word(ctx.prev_word@)
}

pub open spec fn next_is_ascii_word(ctx: RuleContext) -> bool {
    ctx.remaining_words@.len() > 0 && spec_is_nonempty_ascii_word(ctx.remaining_words@[0]@)
}

/// The letters-sequence of the run path.
pub open spec fn run_of(ctx: RuleContext) -> Seq<char> {
    ctx.word_chars@.subrange(ctx.index as int, alpha_run_end(ctx.word_chars@, ctx.index as int))
}

/// Rule 37 allows a whole-word sign for a lower-case Roman word standing
/// alone inside an English passage that wraps Korean, or between two Roman
/// words.
pub open spec fn run_standalone_wordsign(ctx: RuleContext) -> bool {
    let s = ctx.word_chars@;
    let end = alpha_run_end(s, ctx.index as int);
    &&& ctx.index == 0
    &&& end == s.len()
    &&& all_lower(run_of(ctx))
    &&& (ctx.state.english_dominant_wrap_active || (prev_is_ascii_word(ctx) && next_is_ascii_word(ctx)))
}

pub open spec fn is_word_initial(s: Seq<char>, i: int) -> bool {
    i == 0 || match prev_of(s, i) {
        Some(p) => p == '(' || p == '[' || p == '{' || p == '\u{2018}' || p == '\u{201c}'
            || p == '"' || p == '-',
        None => false,
    }
}

pub open spec fn digit_adjacent(s: Seq<char>, i: int) -> bool {
    let end = alpha_run_end(s, i);
    (prev_of(s, i) is Some && spec_is_ascii_digit(prev_of(s, i)->0)) || (end < s.len()
        && spec_is_ascii_digit(s[end]))
}

/// UEB 5.7.2, 5.8.1, 10.9.7: a word-initial all-capital entry that spells a
/// letters-only shortform takes the grade 1 indicator.
pub open spec fn prepend_grade1(ctx: RuleContext) -> bool {
    let s = ctx.word_chars@;
    let i = ctx.index as int;
    &&& !caps_already_emitted(ctx)
    &&& is_word_initial(s, i)
    &&& !digit_adjacent(s, i)
    &&& prev_of(s, i) != Some('-')
    &&& all_upper(run_of(ctx))
    &&& spec_is_letter_shortform(run_of(ctx))
}

/// The run path's cells.
pub open spec fn run_cells(ctx: RuleContext) -> Option<Seq<u8>> {
    spec_encode_korean_word(
        run_of(ctx),
        caps_already_emitted(ctx),
        prepend_grade1(ctx),
        run_standalone_wordsign(ctx),
    )
}

/// The Roman indicator (or continuation indicator) that opens a Roman
/// section, when the input holds Korean and no section is open.
pub open spec fn entry_cells(st: EncoderState) -> Seq<u8> {
    if st.english_indicator && !st.is_english && !st.english_dominant_no_indicator {
        if st.needs_english_continuation {
            seq![ENGLISH_CONTINUATION]
        } else {
            seq![ROMAN_INDICATOR]
        }
    } else {
        Seq::empty()
    }
}

/// The letter-by-letter path writes capital indicators for a capital
/// (in Unicode's sense) that starts a run of capitals not already marked.
pub open spec fn writes_capitals(ctx: RuleContext, c: char) -> bool {
    (!ctx.is_all_uppercase || ctx.word_chars@.len() < 2 || !ctx.ascii_starts_at_beginning)
        && !ctx.state.is_big_english && is_uppercase_char(c)
}

/// One ⠠ for each of the (at most two) capitals, in Unicode's sense, from
/// the current position.
pub open spec fn capital_cells(s: Seq<char>, i: int) -> Seq<u8> {
    if 0 <= i < s.len() && is_uppercase_char(s[i]) {
        if i + 1 < s.len() && is_uppercase_char(s[i + 1]) {
            seq![UPPERCASE_SINGLE, UPPERCASE_SINGLE]
        } else {
            seq![UPPERCASE_SINGLE]
        }
    } else {
        Seq::empty()
    }
}

/// The letter-by-letter path allows a whole-word sign for a lower-case word
/// between two Roman words.
pub open spec fn unit_standalone_wordsign(ctx: RuleContext) -> bool {
    ctx.index == 0 && all_lower(ctx.word_chars@) && prev_is_ascii_word(ctx) && next_is_ascii_word(
        ctx,
    )
}

/// The state after a Roman letter: a Roman section is open and needs no
/// continuation indicator; `big_english` is the new capitals flag.
pub open spec fn roman_state(old: EncoderState, new: EncoderState, big_english: bool) -> bool {
    &&& new.english_indicator == old.english_indicator
    &&& new.is_english
    &&& !new.needs_english_continuation
    &&& new.is_big_english == big_english
    &&& new.english_dominant_no_indicator == old.english_dominant_no_indicator
    &&& new.english_dominant_wrap_active == old.english_dominant_wrap_active
    &&& new.parenthesis_stack@ == old.parenthesis_stack@
}

/// The effect of the rule on a context whose character is the Roman letter
/// `c`.
pub open spec fn spec_rule28_english(
    old: RuleContext,
    new: RuleContext,
    c: char,
    r: Result<RuleResult, String>,
) -> bool {
    let s = old.word_chars@;
    let i = old.index as int;
    let lead = entry_cells(*old.state);
    if takes_run_path(s, i, c) && run_cells(old) is Some {
        &&& r == Ok::<RuleResult, String>(RuleResult::Consumed)
        &&& new.result@ == old.result@ + lead + run_cells(old)->0
        &&& *new.skip_count == run_of(old).len() - 1
        &&& roman_state(*old.state, *new.state, old.state.is_big_english)
    } else {
        let caps: Seq<u8> = if writes_capitals(old, c) { capital_cells(s, i) } else { Seq::empty() };
        let big = old.state.is_big_english || writes_capitals(old, c);
        match spec_korean_unit(s, i, unit_standalone_wordsign(old)) {
            None => {
                &&& r matches Err(m) && m@ == not_a_letter_message()
                &&& new.result@ == old.result@ + lead + caps
                &&& *new.skip_count == *old.skip_count
                &&& capitals_state(*old.state, *new.state, big)
            },
            Some((cells, contracted, consumed)) => {
                &&& r == Ok::<RuleResult, String>(RuleResult::Consumed)
                &&& new.result@ == old.result@ + lead + caps + cells
                &&& *new.skip_count == if contracted { (consumed - 1) as usize } else { *old.skip_count }
                &&& roman_state(*old.state, *new.state, big)
            },
        }
    }
}

// ---------------------------------------------------------------------------
// Executable pieces.

pub(crate) fn alpha_run_end_at(s: &[char], i: usize) -> (r: usize)
    requires
        i <= s@.len(),
    ensures
        r == alpha_run_end(s@, i as int),
        i <= r <= s@.len(),
        forall|j: int| i <= j < r ==> spec_is_ascii_alphabetic(#[trigger] s@[j]),
{
    let mut end = i;
    while end < s.len() && is_ascii_alphabetic(s[end])
        invariant
            i <= end <= s@.len(),
            alpha_run_end(s@, end as int) == alpha_run_end(s@, i as int),
            forall|j: int| i <= j < end ==> spec_is_ascii_alphabetic(#[trigger] s@[j]),
        decreases s@.len() - end,
    {
        end += 1;
    }
    end
}

fn all_lower_in(s: &[char], from: usize, to: usize) -> (r: bool)
    requires
        from <= to <= s@.len(),
    ensures
        r == all_lower(s@.subrange(from as int, to as int)),
{
    let ghost t = s@.subrange(from as int, to as int);
    let mut j = from;
    while j < to
        invariant
            from <= j <= to <= s@.len(),
            t == s@.subrange(from as int, to as int),
            forall|k: int| from <= k < j ==> spec_is_ascii_lowercase(#[trigger] s@[k]),
        decreases to - j,
    {
        if !is_ascii_lowercase(s[j]) {
            assert(!spec_is_ascii_lowercase(t[j - from]));
            return false;
        }
        j += 1;
    }
    assert forall|k: int| 0 <= k < t.len() implies spec_is_ascii_lowercase(#[trigger] t[k]) by {
        assert(t[k] == s@[from + k]);
    }
    true
}

fn all_upper_in(s: &[char], from: usize, to: usize) -> (r: bool)
    requires
        from <= to <= s@.len(),
    ensures
        r == all_upper(s@.subrange(from as int, to as int)),
{
    let ghost t = s@.subrange(from as int, to as int);
    let mut j = from;
    while j < to
        invariant
            from <= j <= to <= s@.len(),
            t == s@.subrange(from as int, to as int),
            forall|k: int| from <= k < j ==> spec_is_ascii_uppercase(#[trigger] s@[k]),
        decreases to - j,
    {
        if !is_ascii_uppercase(s[j]) {
            assert(!spec_is_ascii_uppercase(t[j - from]));
            return false;
        }
        j += 1;
    }
    assert forall|k: int| 0 <= k < t.len() implies spec_is_ascii_uppercase(#[trigger] t[k]) by {
        assert(t[k] == s@[from + k]);
    }
    true
}

fn next_word_is_ascii(ctx: &RuleContext) -> (r: bool)
    ensures
        r == next_is_ascii_word(*ctx),
{
    if ctx.remaining_words.len() > 0 {
        is_nonempty_ascii_word(ctx.remaining_words[0].as_str())
    } else {
        false
    }
}

fn emit_entry_indicator(ctx: &mut RuleContext)
    ensures
        final(ctx).result@ == old(ctx).result@ + entry_cells(*old(ctx).state),
        final(ctx).same_input(old(ctx)),
        *final(ctx).skip_count == *old(ctx).skip_count,
        *final(ctx).state == *old(ctx).state,
{
    // Enter English mode (로마자표 / 연속표)
    // 제39항 영어 주도 문서에서는 영자표시/연속표를 emit하지 않는다.
    if ctx.state.english_indicator && !ctx.state.is_english
        && !ctx.state.english_dominant_no_indicator {
        if ctx.state.needs_english_continuation {
            ctx.emit(ENGLISH_CONTINUATION);
        } else {
            ctx.emit(ROMAN_INDICATOR);
        }
    } else {
        assert(old(ctx).result@ + Seq::<u8>::empty() == old(ctx).result@);
    }
}

/// The cells of the run path and the length of its letters-sequence, when
/// the current letter starts a run that is encoded in one pass.
fn run_path_cells(ctx: &RuleContext, c: char) -> (r: Option<(Vec<u8>, usize)>)
    requires
        ctx.wf(),
    ensures
        r is Some <==> (takes_run_path(ctx.word_chars@, ctx.index as int, c) && run_cells(*ctx) is Some),
        r matches Some((cells, n)) ==> cells@ == run_cells(*ctx)->0 && n == run_of(*ctx).len() && n >= 1,
{
    let index = ctx.index;
    let len = ctx.word_chars.len();
    // 제37항: a Roman section in Korean text spells the word with UEB
    // alphabet signs and multi-letter groupsigns, while suppressing UEB
    // whole-word contractions. Encode each contiguous ASCII letter run in
    // one pass. Lowercase apostrophe continuations keep the letter-by-letter
    // path because they are not fresh word starts; an uppercase
    // continuation is encoded as a run so UEB 8.4.2 can restart capitals
    // mode after the nonalphabetic apostrophe.
    let prev = if index > 0 { Some(ctx.word_chars[index - 1]) } else { None };
    let starts_ascii_run = is_ascii_alphabetic(c) && match prev {
        Some(p) => !is_ascii_alphabetic(p),
        None => true,
    };
    let follows_apostrophe = match prev {
        Some(p) => p == '\'' || p == '\u{2019}',
        None => false,
    };
    if !(starts_ascii_run && (!follows_apostrophe || is_ascii_uppercase(c))) {
        return None;
    }
    let run_end = alpha_run_end_at(ctx.word_chars, index);
    // The token rule pre-emits capitals-word mode only for the initial
    // uppercase letters-sequence (UEB 8.4.2).
    let caps_already_emitted = index == 0 && ctx.is_all_uppercase && len >= 2
        && ctx.ascii_starts_at_beginning;
    let is_whole_lowercase_word = index == 0 && run_end == len && all_lower_in(
        ctx.word_chars,
        index,
        run_end,
    );
    let prev_is_ascii_word = is_nonempty_ascii_word(ctx.prev_word);
    let next_is_ascii_word = next_word_is_ascii(ctx);
    // Rule 37 suppresses a whole-word sign for the first Roman word of
    // "Can you help me?" but keeps it for the phrase-interior `you`;
    // rule 39 resumes the wordsigns of a wrapping English passage.
    let standalone_wordsign = is_whole_lowercase_word && (ctx.state.english_dominant_wrap_active
        || (prev_is_ascii_word && next_is_ascii_word));
    let word_initial = index == 0 || match prev {
        Some(p) => p == '(' || p == '[' || p == '{' || p == '\u{2018}' || p == '\u{201c}' || p
            == '"' || p == '-',
        None => false,
    };
    let digit_adjacent = match prev {
        Some(p) => is_ascii_digit(p),
        None => false,
    } || (run_end < len && is_ascii_digit(ctx.word_chars[run_end]));
    // UEB 5.7.2, 5.8.1 and 10.9.7: grade 1 precedes the capitalization of an
    // attached complete letters-only shortform.
    let follows_hyphen = match prev {
        Some(p) => p == '-',
        None => false,
    };
    let run = &ctx.word_chars[index..run_end];
    assert(run@ == run_of(*ctx));
    let prepend_grade1_indicator = !caps_already_emitted && word_initial && !digit_adjacent
        && !follows_hyphen && all_upper_in(ctx.word_chars, index, run_end)
        && requires_grade1_indicator(run);
    match encode_korean_word(
        run,
        caps_already_emitted,
        prepend_grade1_indicator,
        standalone_wordsign,
        word_initial,
        digit_adjacent,
    ) {
        Some(cells) => Some((cells, run.len())),
        None => None,
    }
}

/// The state after the capital indicators of the letter-by-letter path:
/// only the capitals flag may change, to `big_english`.
pub open spec fn capitals_state(old: EncoderState, new: EncoderState, big_english: bool) -> bool {
    &&& new.english_indicator == old.english_indicator
    &&& new.is_english == old.is_english
    &&& new.needs_english_continuation == old.needs_english_continuation
    &&& new.is_big_english == big_english
    &&& new.english_dominant_no_indicator == old.english_dominant_no_indicator
    &&& new.english_dominant_wrap_active == old.english_dominant_wrap_active
    &&& new.parenthesis_stack@ == old.parenthesis_stack@
}

/// Uppercase indicators of the letter-by-letter path (single or
/// consecutive uppercase run).
fn emit_capitals(ctx: &mut RuleContext, c: char)
    requires
        old(ctx).wf(),
    ensures
        final(ctx).same_input(old(ctx)),
        final(ctx).wf(),
        final(ctx).result@ == old(ctx).result@ + if writes_capitals(*old(ctx), c) {
            capital_cells(old(ctx).word_chars@, old(ctx).index as int)
        } else {
            Seq::empty()
        },
        *final(ctx).skip_count == *old(ctx).skip_count,
        capitals_state(*old(ctx).state, *final(ctx).state, old(ctx).state.is_big_english || writes_capitals(*old(ctx), c)),
{
    let index = ctx.index;
    let len = ctx.word_chars.len();
    if (!ctx.is_all_uppercase || len < 2 || !ctx.ascii_starts_at_beginning)
        && !ctx.state.is_big_english && char_is_uppercase(c) {
        ctx.state.is_big_english = true;
        if char_is_uppercase(ctx.word_chars[index]) {
            ctx.emit(UPPERCASE_SINGLE);
            if index + 1 < len && char_is_uppercase(ctx.word_chars[index + 1]) {
                ctx.emit(UPPERCASE_SINGLE);
            }
        }
    }
}

/// The letter-by-letter path: capital indicators, then the letters at the
/// position (a contraction, the whole word's wordsign or one letter),
/// leaving a Roman section open. A position without a Roman letter is
/// refused after the capital indicators.
#[verifier::rlimit(30)]
fn apply_letter(ctx: &mut RuleContext, c: char) -> (r: Result<RuleResult, String>)
    requires
        old(ctx).wf(),
    ensures
        final(ctx).same_input(old(ctx)),
        ({
            let s = old(ctx).word_chars@;
            let i = old(ctx).index as int;
            let caps: Seq<u8> = if writes_capitals(*old(ctx), c) { capital_cells(s, i) } else { Seq::empty() };
            let big = old(ctx).state.is_big_english || writes_capitals(*old(ctx), c);
            match spec_korean_unit(s, i, unit_standalone_wordsign(*old(ctx))) {
                None => {
                    &&& r matches Err(m) && m@ == not_a_letter_message()
                    &&& final(ctx).result@ == old(ctx).result@ + caps
                    &&& *final(ctx).skip_count == *old(ctx).skip_count
                    &&& capitals_state(*old(ctx).state, *final(ctx).state, big)
                },
                Some((cells, contracted, consumed)) => {
                    &&& r == Ok::<RuleResult, String>(RuleResult::Consumed)
                    &&& final(ctx).result@ == old(ctx).result@ + caps + cells
                    &&& *final(ctx).skip_count == if contracted { (consumed - 1) as usize } else { *old(ctx).skip_count }
                    &&& roman_state(*old(ctx).state, *final(ctx).state, big)
                },
            }
        }),
{
    let index = ctx.index;
    let len = ctx.word_chars.len();
    let ghost old_ctx = *ctx;
    emit_capitals(ctx, c);
    let ghost after_caps = ctx.result@;
    // English abbreviation lookup and fallback letter encoding; this rule
    // only decides the surrounding mode markers.
    let is_whole_lowercase_word = index == 0 && all_lower_in(ctx.word_chars, 0, len);
    proof {
        assert(ctx.word_chars@.subrange(0, len as int) == ctx.word_chars@);
    }
    let prev_is_ascii_word = is_nonempty_ascii_word(ctx.prev_word);
    let next_is_ascii_word = next_word_is_ascii(ctx);
    let unit = match encode_korean_unit(
        KoreanPrefixInput {
            word: ctx.word_chars,
            pos: index,
            wrap_active: ctx.state.english_dominant_wrap_active,
            is_all_uppercase: ctx.is_all_uppercase,
            at_entry: !ctx.state.is_english || index == 0,
            standalone_wordsign: is_whole_lowercase_word && prev_is_ascii_word && next_is_ascii_word,
        },
    ) {
        Ok(unit) => unit,
        Err(m) => return Err(m),
    };
    ctx.emit_slice(unit.cells.as_slice());
    if unit.contracted {
        *ctx.skip_count = unit.consumed - 1;
    }
    ctx.state.is_english = true;
    ctx.state.needs_english_continuation = false;
    Ok(RuleResult::Consumed)
}

/// Plugin struct for the rule engine.
///
/// Handles 제28항 English-in-Korean encoding: 로마자표/연속표 entry and uppercase
/// indicators; the letters and contractions of a Roman word come from the
/// UEB encoder of Korean-context Roman words.
pub struct Rule28;

impl BrailleRule for Rule28 {
    fn meta(&self) -> (r: RuleMeta)
        ensures
            r.section@ == "28"@,
            r.subsection is None,
            r.name@ == "english_encoding"@,
            r.standard_ref@ == "2024 Korean Braille Standard, Ch.4 Sec.10 Art.28"@,
            r.description@ == "English letters encoded per UEB (Unified English Braille)"@,
    {
        meta()
    }

    fn phase(&self) -> (r: Phase)
        ensures
            r == Phase::CoreEncoding,
    {
        Phase::CoreEncoding
    }

    fn matches(&self, ctx: &RuleContext) -> (r: bool)
        ensures
            r == (*ctx.char_type is English),
    {
        match ctx.char_type {
            CharType::English(_) => true,
            _ => false,
        }
    }

    fn apply(&self, ctx: &mut RuleContext) -> (r: Result<RuleResult, String>)
        ensures
            final(ctx).same_input(old(ctx)),
            match *old(ctx).char_type {
                CharType::English(c) => spec_rule28_english(*old(ctx), *final(ctx), c, r),
                _ => {
                    &&& r == Ok::<RuleResult, String>(RuleResult::Skip)
                    &&& final(ctx).result@ == old(ctx).result@
                    &&& *final(ctx).skip_count == *old(ctx).skip_count
                    &&& *final(ctx).state == *old(ctx).state
                },
            },
    {
        let c = match ctx.char_type {
            CharType::English(c) => *c,
            _ => return Ok(RuleResult::Skip),
        };
        let ghost old_ctx = *ctx;
        emit_entry_indicator(ctx);
        let ghost lead_result = ctx.result@;
        if let Some((cells, run_len)) = run_path_cells(ctx, c) {
            ctx.emit_slice(cells.as_slice());
            *ctx.skip_count = run_len - 1;
            ctx.state.is_english = true;
            ctx.state.needs_english_continuation = false;
            assert(ctx.result@ == old_ctx.result@ + entry_cells(*old_ctx.state) + cells@);
            return Ok(RuleResult::Consumed);
        }
        let r = apply_letter(ctx, c);
        proof {
            match r {
                Ok(_) => {
                    let s = old_ctx.word_chars@;
                    let i = old_ctx.index as int;
                    let caps: Seq<u8> = if writes_capitals(old_ctx, c) { capital_cells(s, i) } else { Seq::empty() };
                    let u = spec_korean_unit(s, i, unit_standalone_wordsign(old_ctx))->0;
                    assert(ctx.result@ == lead_result + caps + u.0);
                    assert(ctx.result@ == old_ctx.result@ + entry_cells(*old_ctx.state) + caps + u.0);
                },
                Err(_) => {
                    let s = old_ctx.word_chars@;
                    let i = old_ctx.index as int;
                    let caps: Seq<u8> = if writes_capitals(old_ctx, c) { capital_cells(s, i) } else { Seq::empty() };
                    assert(ctx.result@ == lead_result + caps);
                    assert(ctx.result@ == old_ctx.result@ + entry_cells(*old_ctx.state) + caps);
                },
            }
        }
        r
    }
}

} // verus!
