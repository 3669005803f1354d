//! English-context symbol handling.
//!
//! Handles symbol behavior that depends on English mode state:
//! - English symbol rendering for (, ), , when context requires
//! - Parenthesis stack push/pop for matching English parentheses
//! - Comma before Korean fallback preservation
use vstd::prelude::*;

use crate::char_struct::CharType;
use crate::english_logic::{should_render_symbol_as_english, spec_should_render_symbol_as_english};
use crate::rules::context::{output_of, EncoderState, RuleContext};
use crate::rules::korean::rule_28::{alpha_run_end, all_upper};
use crate::rules::korean::rule_29::{ENGLISH_CONTINUATION, ROMAN_INDICATOR};
use crate::rules::traits::{BrailleRule, Phase, RuleResult};
use crate::rules::RuleMeta;
use crate::symbol_shortcut::{
    encode_char_symbol_shortcut, encode_english_char_symbol_shortcut, spec_english_symbol_cells,
    spec_korean_symbol_cells,
};
use crate::utils::{
    is_ascii_alphabetic, is_ascii_digit, is_ascii_uppercase, is_korean_char,
    spec_is_ascii_alphabetic, spec_is_ascii_digit, spec_is_ascii_uppercase, spec_is_korean_char,
};

verus! {

pub fn meta() -> (r: RuleMeta)
    ensures
        r.section@ == "49"@,
        r.subsection matches Some(s) && s@ == "eng"@,
        r.name@ == "english_symbol_context"@,
        r.standard_ref@ == "2024 Korean Braille Standard, Ch.4 Sec.10 + Ch.6 Sec.13"@,
        r.description@ == "English-context punctuation rendering with parenthesis tracking"@,
{
    RuleMeta {
        section: "49",
        subsection: Some("eng"),
        name: "english_symbol_context",
        standard_ref: "2024 Korean Braille Standard, Ch.4 Sec.10 + Ch.6 Sec.13",
        description: "English-context punctuation rendering with parenthesis tracking",
    }
}

// ---------------------------------------------------------------------------
// What the rule decides, over the context before the call.

/// 한글 점자 제43항·제48항: a full stop between ASCII digits is a decimal
/// point of the number, left to the Korean punctuation rules.
pub open spec fn is_decimal_point(ctx: RuleContext, sym: char) -> bool {
    sym == '.' && ctx.spec_prev_char() is Some && spec_is_ascii_digit(ctx.spec_prev_char()->0)
        && ctx.spec_next_char() is Some && spec_is_ascii_digit(ctx.spec_next_char()->0)
}

/// The first character of the following word.
pub open spec fn next_word_first_char(ctx: RuleContext) -> Option<char> {
    if ctx.remaining_words@.len() > 0 && ctx.remaining_words@[0]@.len() > 0 {
        Some(ctx.remaining_words@[0]@[0])
    } else {
        None
    }
}

/// 제39항: in an English passage wrapping Korean, a mark that keeps English
/// mode (. , : ;) at the end of a word followed by a Korean word is an
/// English symbol.
pub open spec fn wrap_keeps_english(ctx: RuleContext, sym: char) -> bool {
    &&& ctx.state.english_dominant_wrap_active
    &&& ctx.state.is_english
    &&& ctx.index == ctx.word_chars@.len() - 1
    &&& (sym == '.' || sym == ',' || sym == ':' || sym == ';')
    &&& next_word_first_char(ctx) is Some
    &&& spec_is_korean_char(next_word_first_char(ctx)->0)
}

/// Whether the symbol is written as English before parentheses are matched.
pub open spec fn first_choice(ctx: RuleContext, sym: char) -> bool {
    spec_should_render_symbol_as_english(
        ctx.state.english_indicator,
        ctx.state.is_english,
        ctx.word_chars@,
        ctx.index as int,
    ) || wrap_keeps_english(ctx, sym)
}

/// A closing parenthesis is written as its opening one was.
pub open spec fn spec_use_english_symbol(ctx: RuleContext, sym: char) -> bool {
    let stack = ctx.state.parenthesis_stack@;
    if sym == ')' && stack.len() > 0 {
        stack.last()
    } else {
        first_choice(ctx, sym)
    }
}

/// The parenthesis stack after the symbol: `(` pushes its choice, `)` pops.
pub open spec fn stack_after(ctx: RuleContext, sym: char) -> Seq<bool> {
    let stack = ctx.state.parenthesis_stack@;
    if sym == '(' {
        stack.push(first_choice(ctx, sym))
    } else if sym == ')' && stack.len() > 0 {
        stack.drop_last()
    } else {
        stack
    }
}

pub open spec fn word_has_ascii_alphabetic(s: Seq<char>) -> bool {
    exists|j: int| 0 <= j < s.len() && spec_is_ascii_alphabetic(#[trigger] s[j])
}

/// The symbol goes into a Roman section.
pub open spec fn english_path(ctx: RuleContext, sym: char) -> bool {
    ctx.state.english_indicator && (ctx.state.is_english || word_has_ascii_alphabetic(
        ctx.word_chars@,
    )) && spec_use_english_symbol(ctx, sym)
}

/// The symbol opens a Roman section with the Roman indicator.
pub open spec fn opens_roman(ctx: RuleContext, sym: char) -> bool {
    english_path(ctx, sym) && !ctx.state.is_english && !ctx.state.needs_english_continuation
}

/// The start of the ASCII letters that end right before position `i`.
pub open spec fn alpha_run_start(s: Seq<char>, i: int) -> int
    decreases i,
{
    if 0 < i && i <= s.len() && spec_is_ascii_alphabetic(s[i - 1]) {
        alpha_run_start(s, i - 1)
    } else {
        i
    }
}

/// UEB 5.7.2: after a hyphen the next segment brings its own indicator when
/// it starts with a digit, or when two all-capital letter segments meet
/// (`CD-ROM`); otherwise the Roman section continues with ⠰.
pub open spec fn next_has_own_indicator(s: Seq<char>, i: int) -> bool {
    let prefix = s.subrange(alpha_run_start(s, i), i);
    let suffix_letters = s.subrange(i + 1, alpha_run_end(s, i + 1));
    (i + 1 < s.len() && spec_is_ascii_digit(s[i + 1])) || (prefix.len() > 0 && all_upper(prefix)
        && suffix_letters.len() >= 2 && all_upper(suffix_letters))
}

/// The cells the English path writes for `sym`, after any Roman indicator.
pub open spec fn english_symbol_cells(ctx: RuleContext, sym: char) -> Seq<u8> {
    let cont: Seq<u8> = if sym == '-' && !next_has_own_indicator(ctx.word_chars@, ctx.index as int) {
        seq![ENGLISH_CONTINUATION]
    } else {
        Seq::empty()
    };
    spec_english_symbol_cells(sym)->0 + cont
}

/// A comma before Korean keeps its Korean form.
pub open spec fn comma_before_korean(ctx: RuleContext, sym: char) -> bool {
    let next = if ctx.spec_next_char() is Some { ctx.spec_next_char() } else { next_word_first_char(ctx) };
    sym == ',' && next is Some && spec_is_korean_char(next->0)
}

/// The state after the symbol, for a symbol that is not a decimal point.
pub open spec fn state_after(old: EncoderState, new: EncoderState, ctx: RuleContext, sym: char) -> bool {
    &&& new.parenthesis_stack@ == stack_after(ctx, sym)
    &&& new.is_english == (old.is_english || opens_roman(ctx, sym))
    &&& new.needs_english_continuation == old.needs_english_continuation
    &&& new.english_indicator == old.english_indicator
    &&& new.is_big_english == old.is_big_english
    &&& new.english_dominant_no_indicator == old.english_dominant_no_indicator
    &&& new.english_dominant_wrap_active == old.english_dominant_wrap_active
}

/// The effect of the rule on a context whose character is the symbol `sym`.
pub open spec fn spec_symbol_effect(
    old: RuleContext,
    new: RuleContext,
    sym: char,
    r: Result<RuleResult, String>,
) -> bool {
    if is_decimal_point(old, sym) {
        &&& r == Ok::<RuleResult, String>(RuleResult::Continue)
        &&& new.result@ == old.result@
        &&& *new.state == *old.state
    } else {
        let entry: Seq<u8> = if opens_roman(old, sym) { seq![ROMAN_INDICATOR] } else { Seq::empty() };
        &&& state_after(*old.state, *new.state, old, sym)
        &&& if english_path(old, sym) && spec_english_symbol_cells(sym) is Some {
            &&& r == Ok::<RuleResult, String>(RuleResult::Consumed)
            &&& new.result@ == old.result@ + entry + english_symbol_cells(old, sym)
        } else if comma_before_korean(old, sym) {
            &&& r == Ok::<RuleResult, String>(RuleResult::Consumed)
            &&& new.result@ == old.result@ + entry + spec_korean_symbol_cells(',')->0
        } else {
            &&& r == Ok::<RuleResult, String>(RuleResult::Continue)
            &&& new.result@ == old.result@ + entry
        }
    }
}

/// The open parentheses of a context, innermost last.
pub open spec fn parenthesis_stack_of(ctx: RuleContext) -> Seq<bool> {
    ctx.state.parenthesis_stack@
}

/// A closing parenthesis is written in the mode (English or Korean) its
/// opening parenthesis was written in, and the pair leaves the parenthesis
/// stack as it found it.
pub proof fn lemma_parenthesis_pair_restores_stack(
    open_before: RuleContext,
    open_after: RuleContext,
    open_result: Result<RuleResult, String>,
    close_before: RuleContext,
    close_after: RuleContext,
    close_result: Result<RuleResult, String>,
)
    requires
        spec_symbol_effect(open_before, open_after, '(', open_result),
        parenthesis_stack_of(close_before) == parenthesis_stack_of(open_after),
        spec_symbol_effect(close_before, close_after, ')', close_result),
    ensures
        spec_use_english_symbol(close_before, ')') == spec_use_english_symbol(open_before, '('),
        parenthesis_stack_of(close_after) == parenthesis_stack_of(open_before),
{
    assert(open_after.state.parenthesis_stack@ == open_before.state.parenthesis_stack@.push(
        first_choice(open_before, '('),
    ));
    assert(open_before.state.parenthesis_stack@.push(first_choice(open_before, '(')).drop_last()
        =~= open_before.state.parenthesis_stack@);
}

/// A Roman section is open in Korean text.
pub open spec fn roman_section_open(ctx: RuleContext) -> bool {
    ctx.state.english_indicator && ctx.state.is_english
}

/// Inside an open Roman section, an apostrophe followed by Roman letters in
/// its word (`O'Hara`) is written as the UEB apostrophe ⠄ and nothing else.
pub proof fn lemma_apostrophe_in_roman_section(
    before: RuleContext,
    after: RuleContext,
    r: Result<RuleResult, String>,
)
    requires
        spec_symbol_effect(before, after, '\'', r),
        roman_section_open(before),
        crate::english_logic::letters_follow(before.word_chars@, before.index as int),
    ensures
        r == Ok::<RuleResult, String>(RuleResult::Consumed),
        output_of(after) == output_of(before) + seq![4u8],
{
    assert(output_of(before) + Seq::<u8>::empty() + seq![4u8] =~= output_of(before) + seq![4u8]);
}

// ---------------------------------------------------------------------------
// Executable pieces.

fn next_has_own_indicator_at(s: &[char], i: usize) -> (r: bool)
    requires
        i < s@.len(),
    ensures
        r == next_has_own_indicator(s@, i as int),
{
    let mut start = i;
    while start > 0 && is_ascii_alphabetic(s[start - 1])
        invariant
            start <= i < s@.len(),
            alpha_run_start(s@, start as int) == alpha_run_start(s@, i as int),
        decreases start,
    {
        start -= 1;
    }
    let len = s.len();
    let mut end = i + 1;
    while end < s.len() && is_ascii_alphabetic(s[end])
        invariant
            i + 1 <= end <= s@.len(),
            alpha_run_end(s@, end as int) == alpha_run_end(s@, i + 1),
        decreases s@.len() - end,
    {
        end += 1;
    }
    let starts_with_digit = i + 1 < s.len() && is_ascii_digit(s[i + 1]);
    let prefix_upper = start < i && all_upper_range(s, start, i);
    let suffix_upper = end - (i + 1) >= 2 && all_upper_range(s, i + 1, end);
    starts_with_digit || (prefix_upper && suffix_upper)
}

fn all_upper_range(s: &[char], from: usize, to: usize) -> (r: bool)
    requires
        from <= to <= s@.len(),
    ensures
        r == all_upper(s@.subrange(from as int, to as int)),
{
    let ghost t = s@.subrange(from as int, to as int);
    let mut j = from;
    while j < to
        invariant
            from <= j <= to <= s@.len(),
            t == s@.subrange(from as int, to as int),
            forall|k: int| from <= k < j ==> spec_is_ascii_uppercase(#[trigger] s@[k]),
        decreases to - j,
    {
        if !is_ascii_uppercase(s[j]) {
            assert(!spec_is_ascii_uppercase(t[j - from]));
            return false;
        }
        j += 1;
    }
    assert forall|k: int| 0 <= k < t.len() implies spec_is_ascii_uppercase(#[trigger] t[k]) by {
        assert(t[k] == s@[from + k]);
    }
    true
}

fn has_ascii_alphabetic(s: &[char]) -> (r: bool)
    ensures
        r == word_has_ascii_alphabetic(s@),
{
    let mut j: usize = 0;
    while j < s.len()
        invariant
            j <= s@.len(),
            forall|k: int| 0 <= k < j ==> !spec_is_ascii_alphabetic(#[trigger] s@[k]),
        decreases s@.len() - j,
    {
        if is_ascii_alphabetic(s[j]) {
            assert(spec_is_ascii_alphabetic(s@[j as int]));
            return true;
        }
        j += 1;
    }
    false
}

fn next_word_first(ctx: &RuleContext) -> (r: Option<char>)
    ensures
        r == next_word_first_char(*ctx),
{
    if ctx.remaining_words.len() > 0 {
        let w = ctx.remaining_words[0].as_str();
        if w.unicode_len() > 0 {
            return Some(w.get_char(0));
        }
    }
    None
}

/// The choice before parentheses are matched.
fn first_choice_at(ctx: &RuleContext, sym: char) -> (r: bool)
    requires
        ctx.wf(),
    ensures
        r == first_choice(*ctx, sym),
{
    let use_english_symbol = should_render_symbol_as_english(
        ctx.state.english_indicator,
        ctx.state.is_english,
        &ctx.state.parenthesis_stack,
        sym,
        ctx.word_chars,
        ctx.index,
        ctx.remaining_words,
    );
    // 제39항 영-한 wrap context: 단어 끝의 영어 모드 유지 가능 기호(. , : ;)
    // 다음에 한글 어절(wrap 대상)이 이어지면 그 기호를 영어 점자로 처리한다.
    // 예) "(Korean:" 끝의 ':'은 다음 wrap된 "반찬" 직전이므로 영어 점자 ⠒.
    if !use_english_symbol && ctx.state.english_dominant_wrap_active && ctx.state.is_english
        && ctx.index == ctx.word_chars.len() - 1 && (sym == '.' || sym == ',' || sym == ':' || sym
        == ';') {
        if let Some(first) = next_word_first(ctx) {
            if is_korean_char(first) {
                return true;
            }
        }
    }
    use_english_symbol
}

pub struct RuleEnglishSymbol;

impl BrailleRule for RuleEnglishSymbol {
    fn meta(&self) -> (r: RuleMeta)
        ensures
            r.section@ == "49"@,
            r.subsection matches Some(s) && s@ == "eng"@,
            r.name@ == "english_symbol_context"@,
            r.standard_ref@ == "2024 Korean Braille Standard, Ch.4 Sec.10 + Ch.6 Sec.13"@,
            r.description@ == "English-context punctuation rendering with parenthesis tracking"@,
    {
        meta()
    }

    fn phase(&self) -> (r: Phase)
        ensures
            r == Phase::CoreEncoding,
    {
        Phase::CoreEncoding
    }

    fn priority(&self) -> (r: u16)
        ensures
            r == 300,
    {
        300
    }

    fn matches(&self, ctx: &RuleContext) -> (r: bool)
        ensures
            r == (*ctx.char_type is Symbol),
    {
        match ctx.char_type {
            CharType::Symbol(_) => true,
            _ => false,
        }
    }

    #[verifier::rlimit(40)]
    fn apply(&self, ctx: &mut RuleContext) -> (r: Result<RuleResult, String>)
        ensures
            final(ctx).same_input(old(ctx)),
            *final(ctx).skip_count == *old(ctx).skip_count,
            match *old(ctx).char_type {
                CharType::Symbol(sym) => spec_symbol_effect(*old(ctx), *final(ctx), sym, r),
                _ => {
                    &&& r == Ok::<RuleResult, String>(RuleResult::Skip)
                    &&& final(ctx).result@ == old(ctx).result@
                    &&& *final(ctx).state == *old(ctx).state
                },
            },
    {
        let sym = match ctx.char_type {
            CharType::Symbol(sym) => *sym,
            _ => return Ok(RuleResult::Skip),
        };
        let ghost old_ctx = *ctx;

        // 한글 점자 제43항·제48항: ASCII 숫자 사이의 마침표는 숫자 흐름의
        // 소수점이다. 이 기호는 일반 한글 문장부호 규칙이 처리하도록 넘긴다.
        if sym == '.' {
            if let (Some(p), Some(n)) = (ctx.prev_char(), ctx.next_char()) {
                if is_ascii_digit(p) && is_ascii_digit(n) {
                    return Ok(RuleResult::Continue);
                }
            }
        }

        let first = first_choice_at(ctx, sym);
        let mut use_english_symbol = first;
        if sym == '(' {
            ctx.state.parenthesis_stack.push(use_english_symbol);
        } else if sym == ')' {
            use_english_symbol = match ctx.state.parenthesis_stack.pop() {
                Some(opening) => opening,
                None => use_english_symbol,
            };
        }
        assert(use_english_symbol == spec_use_english_symbol(old_ctx, sym));
        assert(ctx.state.parenthesis_stack@ == stack_after(old_ctx, sym));

        let has_ascii_alphabetic = has_ascii_alphabetic(ctx.word_chars);
        let can_use_english_symbol = ctx.state.is_english || has_ascii_alphabetic;

        let ghost entry: Seq<u8> = if opens_roman(old_ctx, sym) { seq![ROMAN_INDICATOR] } else { Seq::empty() };
        if ctx.state.english_indicator && can_use_english_symbol && use_english_symbol {
            assert(english_path(old_ctx, sym));
            if !ctx.state.is_english && !ctx.state.needs_english_continuation {
                ctx.emit(ROMAN_INDICATOR);
                ctx.state.is_english = true;
                ctx.state.needs_english_continuation = false;
            }
            let ghost after_entry = ctx.result@;
            assert(after_entry == old_ctx.result@ + entry);
            assert(state_after(*old_ctx.state, *ctx.state, old_ctx, sym));
            if let Some(encoded) = encode_english_char_symbol_shortcut(sym) {
                ctx.emit_slice(encoded.as_slice());
                if sym == '-' && ctx.state.is_english {
                    // UEB 5.7.2의 `CD-ROM`은 순수 대문자 segment 사이의 하이픈
                    // 뒤에서 대문자 단어표 앞에 1급 점자 기호표를 다시 적지
                    // 않는다. 숫자는 제35항 `D-100`처럼 수표가 나오므로 역시
                    // 로마자 연속표(⠰)가 불필요하다.
                    if !next_has_own_indicator_at(ctx.word_chars, ctx.index) {
                        ctx.emit(ENGLISH_CONTINUATION);
                    }
                }
                assert(ctx.result@ =~= after_entry + english_symbol_cells(old_ctx, sym));
                return Ok(RuleResult::Consumed);
            }
        }

        if sym == ',' {
            let next_char = match ctx.next_char() {
                Some(n) => Some(n),
                None => next_word_first(ctx),
            };
            if let Some(n) = next_char {
                if is_korean_char(n) {
                    let encoded = encode_char_symbol_shortcut(sym)?;
                    ctx.emit_slice(encoded.as_slice());
                    return Ok(RuleResult::Consumed);
                }
            }
        }

        Ok(RuleResult::Continue)
    }
}

} // verus!
