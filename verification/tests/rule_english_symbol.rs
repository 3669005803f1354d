use braillify::char_struct::CharType;
use braillify::rules::context::{EncoderState, RuleContext};
use braillify::rules::korean::rule_29::{ENGLISH_CONTINUATION, ROMAN_INDICATOR};
use braillify::rules::korean::rule_english_symbol::{meta, RuleEnglishSymbol};
use braillify::rules::traits::{BrailleRule, Phase, RuleResult};
use braillify::test_helpers::CtxOwned;

#[test]
fn rule_english_symbol_apply_exercise() {
    let mut owned = CtxOwned::for_text("A", false);
    let mut ctx = owned.ctx_at(0);
    // Just exercise apply() for coverage; either Skip or Continue/Consumed is OK
    let _ = RuleEnglishSymbol.apply(&mut ctx);
}

#[test]
fn rule_english_symbol_matches_does_not_panic() {
    let mut owned = CtxOwned::for_text("A", false);
    let ctx = owned.ctx_at(0);
    let _ = RuleEnglishSymbol.matches(&ctx);
}

#[test]
fn opening_parenthesis_pushes_symbol_mode() {
    let mut owned = CtxOwned::for_text("(", false);
    let mut ctx = owned.ctx_at(0);

    let _ = RuleEnglishSymbol.apply(&mut ctx);

    assert!(!ctx.state.parenthesis_stack.is_empty());
}

#[test]
fn closing_parenthesis_reuses_opening_parenthesis_symbol_mode() {
    let mut owned = CtxOwned::for_text("()", true);
    {
        let mut ctx = owned.ctx_at(0);
        ctx.state.is_english = true;

        let _ = RuleEnglishSymbol.apply(&mut ctx);
        assert_eq!(ctx.state.parenthesis_stack.len(), 1);
    }

    let mut ctx = owned.ctx_at(1);
    ctx.state.is_english = true;

    let _ = RuleEnglishSymbol.apply(&mut ctx);

    assert!(ctx.state.parenthesis_stack.is_empty());
}

#[test]
fn decimal_point_between_digits_is_not_an_english_entry_symbol() {
    let mut owned = CtxOwned::for_text("3.5P", false);
    let mut ctx = owned.ctx_at(1);

    let outcome = RuleEnglishSymbol.apply(&mut ctx).unwrap();

    assert_eq!(outcome, RuleResult::Continue);
    assert!(owned.result.is_empty());
}

#[test]
fn english_symbol_metadata() {
    let m = meta();
    assert_eq!(m.section, "49");
    assert_eq!(m.name, "english_symbol_context");
    assert_eq!(RuleEnglishSymbol.priority(), 300);
    assert_eq!(RuleEnglishSymbol.phase(), Phase::CoreEncoding);
}

#[test]
fn only_symbols_match() {
    let mut owned = CtxOwned::for_text("a,", false);
    assert!(!RuleEnglishSymbol.matches(&owned.ctx_at(0)));
    assert!(RuleEnglishSymbol.matches(&owned.ctx_at(1)));
}

#[test]
fn non_symbol_is_skipped() {
    let mut owned = CtxOwned::for_text("a", true);
    let mut ctx = owned.ctx_at(0);
    assert_eq!(RuleEnglishSymbol.apply(&mut ctx).unwrap(), RuleResult::Skip);
    assert!(owned.result.is_empty());
}

#[test]
fn parenthesis_inside_roman_section_is_written_in_english() {
    let mut owned = CtxOwned::for_text("(ab)", true);
    owned.state.is_english = true;
    {
        let mut ctx = owned.ctx_at(0);
        assert_eq!(RuleEnglishSymbol.apply(&mut ctx).unwrap(), RuleResult::Consumed);
        assert_eq!(ctx.state.parenthesis_stack, vec![true]);
    }
    assert_eq!(owned.result, vec![16, 35]);
    {
        // No letters follow the closing parenthesis, yet it is written as
        // its opening one was.
        let mut ctx = owned.ctx_at(3);
        assert_eq!(RuleEnglishSymbol.apply(&mut ctx).unwrap(), RuleResult::Consumed);
        assert!(ctx.state.parenthesis_stack.is_empty());
    }
    assert_eq!(owned.result, vec![16, 35, 16, 28]);
}

#[test]
fn comma_before_korean_word_keeps_korean_form() {
    let mut owned = CtxOwned::for_text(",", false).with_remaining_words(["가"]);
    let mut ctx = owned.ctx_at(0);
    assert_eq!(RuleEnglishSymbol.apply(&mut ctx).unwrap(), RuleResult::Consumed);
    assert_eq!(owned.result, vec![16]);
}

#[test]
fn comma_before_latin_word_is_left_to_other_rules() {
    let mut owned = CtxOwned::for_text(",", false).with_remaining_words(["a"]);
    let mut ctx = owned.ctx_at(0);
    assert_eq!(RuleEnglishSymbol.apply(&mut ctx).unwrap(), RuleResult::Continue);
    assert!(owned.result.is_empty());
}

#[test]
fn hyphen_between_letters_continues_the_roman_section() {
    let mut owned = CtxOwned::for_text("ab-cd", true);
    owned.state.is_english = true;
    let mut ctx = owned.ctx_at(2);
    assert_eq!(RuleEnglishSymbol.apply(&mut ctx).unwrap(), RuleResult::Consumed);
    assert_eq!(owned.result, vec![36, ENGLISH_CONTINUATION]);
}

#[test]
fn hyphen_between_capital_segments_needs_no_continuation() {
    let mut owned = CtxOwned::for_text("CD-ROM", true);
    owned.state.is_english = true;
    let mut ctx = owned.ctx_at(2);
    assert_eq!(RuleEnglishSymbol.apply(&mut ctx).unwrap(), RuleResult::Consumed);
    assert_eq!(owned.result, vec![36]);
}

#[test]
fn hyphen_before_digit_needs_no_continuation() {
    let mut owned = CtxOwned::for_text("D-1a", true);
    owned.state.is_english = true;
    let mut ctx = owned.ctx_at(1);
    assert_eq!(RuleEnglishSymbol.apply(&mut ctx).unwrap(), RuleResult::Consumed);
    assert_eq!(owned.result, vec![36]);
}

#[test]
fn wrapped_english_colon_before_korean_word_stays_english() {
    let mut owned = CtxOwned::for_text("Korean:", true).with_remaining_words(["반찬"]);
    owned.state.is_english = true;
    owned.state.english_dominant_wrap_active = true;
    let mut ctx = owned.ctx_at(6);
    assert_eq!(RuleEnglishSymbol.apply(&mut ctx).unwrap(), RuleResult::Consumed);
    assert_eq!(owned.result, vec![18]);
}

#[test]
fn roman_indicator_opens_a_section_for_a_matched_parenthesis() {
    // A closing parenthesis whose opening one was English, met outside a
    // Roman section in a word with letters, reopens the section.
    let word: Vec<char> = "a)".chars().collect();
    let ct = CharType::Symbol(')');
    let mut skip = 0usize;
    let mut state = EncoderState::new(true);
    state.parenthesis_stack.push(true);
    let mut out = Vec::new();
    let mut ctx = RuleContext {
        word_chars: &word,
        index: 1,
        char_type: &ct,
        prev_word: "",
        remaining_words: &[],
        has_korean_char: false,
        is_all_uppercase: false,
        ascii_starts_at_beginning: true,
        skip_count: &mut skip,
        state: &mut state,
        result: &mut out,
    };
    assert_eq!(RuleEnglishSymbol.apply(&mut ctx).unwrap(), RuleResult::Consumed);
    assert!(ctx.state.is_english);
    assert!(ctx.state.parenthesis_stack.is_empty());
    assert_eq!(out, vec![ROMAN_INDICATOR, 16, 28]);
}
